//! The model catalogs, the files they name, what the user's hardware
//! suggests, and the bookkeeping of downloads.
use vstd::prelude::*;
use crate::text::{
    chars_of, contains, contains_chars, decimal_value, find_chars, first_occurrence, has_char,
    is_digit, is_digit_char, lines, lines_of, occurs_at, occurs_at_chars, parse_digits,
    parse_digits_chars, slice_chars, string_of, trim, trim_chars, views, CharClass,
    lemma_first_occurrence,
};

verus! {

/// A text model that can be downloaded.
#[derive(Clone, Copy, Debug)]
pub struct ModelDef {
    pub id: &'static str,
    pub file: &'static str,
    pub url: &'static str,
    pub size_mb: u64,
}

/// One file of an image model. `role` is `model` (a whole SDXL
/// checkpoint), `diffusion`, `clip_l`, `t5xxl` or `vae`.
#[derive(Clone, Copy, Debug)]
pub struct ImageFile {
    pub role: &'static str,
    pub file: &'static str,
    pub url: &'static str,
    pub size_mb: u64,
}

/// An image model. `kind` is `sdxl` (one file), `chroma` or `kontext` (a
/// set of files); `steps` and `cfg_tenths` (guidance, in tenths) are the
/// defaults that the front end offers.
#[derive(Clone, Debug)]
pub struct ImageModelDef {
    pub id: &'static str,
    pub kind: &'static str,
    pub files: Vec<ImageFile>,
    pub steps: u32,
    pub cfg_tenths: u32,
}

pub open spec fn model_view(m: ModelDef) -> (Seq<char>, Seq<char>, Seq<char>, u64) {
    (m.id@, m.file@, m.url@, m.size_mb)
}

pub open spec fn model_views(v: Seq<ModelDef>) -> Seq<(Seq<char>, Seq<char>, Seq<char>, u64)> {
    v.map_values(|m: ModelDef| model_view(m))
}

pub open spec fn image_file_view(f: ImageFile) -> (Seq<char>, Seq<char>, Seq<char>, u64) {
    (f.role@, f.file@, f.url@, f.size_mb)
}

pub open spec fn image_def_view(d: ImageModelDef) -> (
    Seq<char>,
    Seq<char>,
    Seq<(Seq<char>, Seq<char>, Seq<char>, u64)>,
    u32,
    u32,
) {
    (d.id@, d.kind@, d.files@.map_values(|f: ImageFile| image_file_view(f)), d.steps, d.cfg_tenths)
}

pub open spec fn image_def_views(v: Seq<ImageModelDef>) -> Seq<
    (Seq<char>, Seq<char>, Seq<(Seq<char>, Seq<char>, Seq<char>, u64)>, u32, u32),
> {
    v.map_values(|d: ImageModelDef| image_def_view(d))
}

/// The text models that can be downloaded: id, file, address, size in MiB.
pub open spec fn catalog_table() -> Seq<(Seq<char>, Seq<char>, Seq<char>, u64)> {
    seq![
        ("standard"@, "Qwen3-4B-Instruct-2507-Q4_K_M.gguf"@, "https://huggingface.co/unsloth/Qwen3-4B-Instruct-2507-GGUF/resolve/main/Qwen3-4B-Instruct-2507-Q4_K_M.gguf"@, 2440u64),
        ("light"@, "Qwen3-1.7B-Q4_K_M.gguf"@, "https://huggingface.co/unsloth/Qwen3-1.7B-GGUF/resolve/main/Qwen3-1.7B-Q4_K_M.gguf"@, 1070u64),
        ("big8"@, "Qwen3-8B-Q4_K_M.gguf"@, "https://huggingface.co/unsloth/Qwen3-8B-GGUF/resolve/main/Qwen3-8B-Q4_K_M.gguf"@, 4795u64),
        ("big14"@, "Qwen3-14B-Q4_K_M.gguf"@, "https://huggingface.co/unsloth/Qwen3-14B-GGUF/resolve/main/Qwen3-14B-Q4_K_M.gguf"@, 8585u64),
        ("uncensored"@, "Huihui-Qwen3-4B-Instruct-2507-abliterated.Q4_K_M.gguf"@, "https://huggingface.co/mradermacher/Huihui-Qwen3-4B-Instruct-2507-abliterated-GGUF/resolve/main/Huihui-Qwen3-4B-Instruct-2507-abliterated.Q4_K_M.gguf"@, 2381u64),
    ]
}

/// The text models that can be downloaded.
pub fn catalog() -> (r: Vec<ModelDef>)
    ensures
        model_views(r@) == catalog_table(),
{
    let mut r: Vec<ModelDef> = Vec::new();
    r.push(ModelDef {
        id: "standard",
        file: "Qwen3-4B-Instruct-2507-Q4_K_M.gguf",
        url: "https://huggingface.co/unsloth/Qwen3-4B-Instruct-2507-GGUF/resolve/main/Qwen3-4B-Instruct-2507-Q4_K_M.gguf",
        size_mb: 2440,
    });
    r.push(ModelDef {
        id: "light",
        file: "Qwen3-1.7B-Q4_K_M.gguf",
        url: "https://huggingface.co/unsloth/Qwen3-1.7B-GGUF/resolve/main/Qwen3-1.7B-Q4_K_M.gguf",
        size_mb: 1070,
    });
    r.push(ModelDef {
        id: "big8",
        file: "Qwen3-8B-Q4_K_M.gguf",
        url: "https://huggingface.co/unsloth/Qwen3-8B-GGUF/resolve/main/Qwen3-8B-Q4_K_M.gguf",
        size_mb: 4795,
    });
    r.push(ModelDef {
        id: "big14",
        file: "Qwen3-14B-Q4_K_M.gguf",
        url: "https://huggingface.co/unsloth/Qwen3-14B-GGUF/resolve/main/Qwen3-14B-Q4_K_M.gguf",
        size_mb: 8585,
    });
    r.push(ModelDef {
        id: "uncensored",
        file: "Huihui-Qwen3-4B-Instruct-2507-abliterated.Q4_K_M.gguf",
        url: "https://huggingface.co/mradermacher/Huihui-Qwen3-4B-Instruct-2507-abliterated-GGUF/resolve/main/Huihui-Qwen3-4B-Instruct-2507-abliterated.Q4_K_M.gguf",
        size_mb: 2381,
    });
    assert(model_views(r@) =~= catalog_table());
    r
}

/// The image models: id, kind, files (role, file, address, size in MiB),
/// default steps and default guidance in tenths.
pub open spec fn image_catalog_table() -> Seq<(Seq<char>, Seq<char>, Seq<(Seq<char>, Seq<char>, Seq<char>, u64)>, u32, u32)> {
    seq![
        (
            "sdxl"@,
            "sdxl"@,
            seq![
                ("model"@, "sdxlYamersRealisticNSFW_v5TX.safetensors"@, "https://huggingface.co/misri/sdxlYamersRealisticNSFW_v5TX/resolve/main/sdxlYamersRealisticNSFW_v5TX.safetensors"@, 6617u64),
            ],
            26u32,
            60u32,
        ),
        (
            "chroma"@,
            "chroma"@,
            seq![
                ("diffusion"@, "Chroma1-HD-Q8_0.gguf"@, "https://huggingface.co/silveroxides/Chroma-GGUF/resolve/main/Chroma1-HD/Chroma1-HD-Q8_0.gguf"@, 9285u64),
                ("t5xxl"@, "t5-v1_1-xxl-encoder-Q4_K_M.gguf"@, "https://huggingface.co/city96/t5-v1_1-xxl-encoder-gguf/resolve/main/t5-v1_1-xxl-encoder-Q4_K_M.gguf"@, 2762u64),
                ("vae"@, "ae.safetensors"@, "https://huggingface.co/Comfy-Org/Lumina_Image_2.0_Repackaged/resolve/main/split_files/vae/ae.safetensors"@, 320u64),
            ],
            26u32,
            40u32,
        ),
        (
            "kontext"@,
            "kontext"@,
            seq![
                ("diffusion"@, "flux1-kontext-dev-Q6_K.gguf"@, "https://huggingface.co/QuantStack/FLUX.1-Kontext-dev-GGUF/resolve/main/flux1-kontext-dev-Q6_K.gguf"@, 9392u64),
                ("clip_l"@, "clip_l.safetensors"@, "https://huggingface.co/comfyanonymous/flux_text_encoders/resolve/main/clip_l.safetensors"@, 234u64),
                ("t5xxl"@, "t5-v1_1-xxl-encoder-Q4_K_M.gguf"@, "https://huggingface.co/city96/t5-v1_1-xxl-encoder-gguf/resolve/main/t5-v1_1-xxl-encoder-Q4_K_M.gguf"@, 2762u64),
                ("vae"@, "ae.safetensors"@, "https://huggingface.co/Comfy-Org/Lumina_Image_2.0_Repackaged/resolve/main/split_files/vae/ae.safetensors"@, 320u64),
            ],
            22u32,
            10u32,
        ),
    ]
}

fn image_model_sdxl() -> (d: ImageModelDef)
    ensures
        image_def_view(d) == image_catalog_table()[0],
{
    let mut files: Vec<ImageFile> = Vec::new();
    files.push(ImageFile {
        role: "model",
        file: "sdxlYamersRealisticNSFW_v5TX.safetensors",
        url: "https://huggingface.co/misri/sdxlYamersRealisticNSFW_v5TX/resolve/main/sdxlYamersRealisticNSFW_v5TX.safetensors",
        size_mb: 6617,
    });
    let d = ImageModelDef { id: "sdxl", kind: "sdxl", files, steps: 26, cfg_tenths: 60 };
    assert(image_def_view(d) =~= image_catalog_table()[0]);
    d
}

fn image_model_chroma() -> (d: ImageModelDef)
    ensures
        image_def_view(d) == image_catalog_table()[1],
{
    let mut files: Vec<ImageFile> = Vec::new();
    files.push(ImageFile {
        role: "diffusion",
        file: "Chroma1-HD-Q8_0.gguf",
        url: "https://huggingface.co/silveroxides/Chroma-GGUF/resolve/main/Chroma1-HD/Chroma1-HD-Q8_0.gguf",
        size_mb: 9285,
    });
    files.push(ImageFile {
        role: "t5xxl",
        file: "t5-v1_1-xxl-encoder-Q4_K_M.gguf",
        url: "https://huggingface.co/city96/t5-v1_1-xxl-encoder-gguf/resolve/main/t5-v1_1-xxl-encoder-Q4_K_M.gguf",
        size_mb: 2762,
    });
    files.push(ImageFile {
        role: "vae",
        file: "ae.safetensors",
        url: "https://huggingface.co/Comfy-Org/Lumina_Image_2.0_Repackaged/resolve/main/split_files/vae/ae.safetensors",
        size_mb: 320,
    });
    let d = ImageModelDef { id: "chroma", kind: "chroma", files, steps: 26, cfg_tenths: 40 };
    assert(image_def_view(d) =~= image_catalog_table()[1]);
    d
}

fn image_model_kontext() -> (d: ImageModelDef)
    ensures
        image_def_view(d) == image_catalog_table()[2],
{
    let mut files: Vec<ImageFile> = Vec::new();
    files.push(ImageFile {
        role: "diffusion",
        file: "flux1-kontext-dev-Q6_K.gguf",
        url: "https://huggingface.co/QuantStack/FLUX.1-Kontext-dev-GGUF/resolve/main/flux1-kontext-dev-Q6_K.gguf",
        size_mb: 9392,
    });
    files.push(ImageFile {
        role: "clip_l",
        file: "clip_l.safetensors",
        url: "https://huggingface.co/comfyanonymous/flux_text_encoders/resolve/main/clip_l.safetensors",
        size_mb: 234,
    });
    files.push(ImageFile {
        role: "t5xxl",
        file: "t5-v1_1-xxl-encoder-Q4_K_M.gguf",
        url: "https://huggingface.co/city96/t5-v1_1-xxl-encoder-gguf/resolve/main/t5-v1_1-xxl-encoder-Q4_K_M.gguf",
        size_mb: 2762,
    });
    files.push(ImageFile {
        role: "vae",
        file: "ae.safetensors",
        url: "https://huggingface.co/Comfy-Org/Lumina_Image_2.0_Repackaged/resolve/main/split_files/vae/ae.safetensors",
        size_mb: 320,
    });
    let d = ImageModelDef { id: "kontext", kind: "kontext", files, steps: 22, cfg_tenths: 10 };
    assert(image_def_view(d) =~= image_catalog_table()[2]);
    d
}

/// The image models.
pub fn image_catalog() -> (r: Vec<ImageModelDef>)
    ensures
        image_def_views(r@) == image_catalog_table(),
{
    let mut r: Vec<ImageModelDef> = Vec::new();
    r.push(image_model_sdxl());
    r.push(image_model_chroma());
    r.push(image_model_kontext());
    assert(image_def_views(r@) =~= image_catalog_table());
    r
}


/// A model lies on disk when there is a presence flag for each of its
/// `n` files and every one is set.
pub open spec fn row_complete(row: Seq<bool>, n: nat) -> bool {
    row.len() == n && forall|j: int| 0 <= j < row.len() ==> row[j]
}

/// The ids, in catalog order, of the first `k` image models that lie
/// whole on disk; `present[i]` holds a flag for each file of model `i`.
pub open spec fn complete_ids_upto(present: Seq<Seq<bool>>, k: nat) -> Seq<Seq<char>>
    decreases k,
{
    if k == 0 {
        seq![]
    } else {
        let r = complete_ids_upto(present, (k - 1) as nat);
        let i = k - 1;
        if i < present.len() && row_complete(present[i], image_catalog_table()[i].2.len()) {
            r.push(image_catalog_table()[i].0)
        } else {
            r
        }
    }
}

pub open spec fn bool_rows(v: Seq<Vec<bool>>) -> Seq<Seq<bool>> {
    v.map_values(|r: Vec<bool>| r@)
}

fn all_set(row: &Vec<bool>) -> (r: bool)
    ensures
        r == (forall|j: int| 0 <= j < row@.len() ==> row@[j]),
{
    let mut i: usize = 0;
    while i < row.len()
        invariant
            i <= row.len(),
            forall|j: int| 0 <= j < i ==> row@[j],
        decreases row.len() - i,
    {
        if !row[i] {
            return false;
        }
        i = i + 1;
    }
    true
}

/// The ids of the image models whose files are all on disk, in catalog
/// order: `present[i][j]` says whether file `j` of model `i` is there.
pub fn complete_image_ids(present: &Vec<Vec<bool>>) -> (r: Vec<String>)
    ensures
        crate::reply::string_views(r@) == complete_ids_upto(
            bool_rows(present@),
            image_catalog_table().len(),
        ),
{
    let cat = image_catalog();
    let ghost rows = bool_rows(present@);
    let mut out: Vec<String> = Vec::new();
    let mut i: usize = 0;
    while i < cat.len()
        invariant
            i <= cat.len(),
            image_def_views(cat@) == image_catalog_table(),
            rows == bool_rows(present@),
            crate::reply::string_views(out@) == complete_ids_upto(rows, i as nat),
        decreases cat.len() - i,
    {
        assert(image_def_views(cat@)[i as int] == image_def_view(cat@[i as int]));
        let ghost before = crate::reply::string_views(out@);
        if i < present.len() && present[i].len() == cat[i].files.len() && all_set(&present[i]) {
            assert(rows[i as int] == present@[i as int]@);
            out.push(String::from_str(cat[i].id));
            assert(crate::reply::string_views(out@) =~= before.push(image_catalog_table()[i as int].0));
        } else {
            assert(i < present.len() ==> rows[i as int] == present@[i as int]@);
        }
        i = i + 1;
    }
    out
}

/// The first index at or after `i` whose id is `id`.
pub open spec fn find_id_from(ids: Seq<Seq<char>>, id: Seq<char>, i: nat) -> Option<int>
    decreases ids.len() - i,
{
    if i >= ids.len() {
        None
    } else if ids[i as int] == id {
        Some(i as int)
    } else {
        find_id_from(ids, id, i + 1)
    }
}

pub proof fn lemma_find_id_from(ids: Seq<Seq<char>>, id: Seq<char>, i: nat)
    requires
        i <= ids.len(),
    ensures
        find_id_from(ids, id, i) matches Some(k) ==> i <= k < ids.len() && ids[k] == id
            && forall|j: int| i <= j < k ==> ids[j] != id,
        find_id_from(ids, id, i) is None ==> forall|j: int| i <= j < ids.len() ==> ids[j] != id,
    decreases ids.len() - i,
{
    if i < ids.len() && ids[i as int] != id {
        lemma_find_id_from(ids, id, i + 1);
    }
}

proof fn lemma_find_id_skip(ids: Seq<Seq<char>>, id: Seq<char>, i: nat)
    requires
        i <= ids.len(),
        forall|j: int| 0 <= j < i ==> ids[j] != id,
    ensures
        find_id_from(ids, id, 0) == find_id_from(ids, id, i),
    decreases i,
{
    if i > 0 {
        lemma_find_id_skip(ids, id, (i - 1) as nat);
    }
}

/// The ids of the text catalog.
pub open spec fn catalog_ids() -> Seq<Seq<char>> {
    catalog_table().map_values(|e: (Seq<char>, Seq<char>, Seq<char>, u64)| e.0)
}

/// The ids of the image catalog.
pub open spec fn image_catalog_ids() -> Seq<Seq<char>> {
    image_catalog_table().map_values(
        |e: (Seq<char>, Seq<char>, Seq<(Seq<char>, Seq<char>, Seq<char>, u64)>, u32, u32)| e.0,
    )
}

/// The text model with the id `id`.
pub fn find_model(id: &str) -> (r: Option<ModelDef>)
    ensures
        match find_id_from(catalog_ids(), id@, 0) {
            Some(k) => r is Some && model_view(r->0) == catalog_table()[k],
            None => r is None,
        },
{
    let cat = catalog();
    let key = chars_of(id);
    let ghost ids = catalog_ids();
    let mut i: usize = 0;
    while i < cat.len()
        invariant
            i <= cat.len(),
            model_views(cat@) == catalog_table(),
            ids == catalog_ids(),
            ids.len() == cat.len(),
            forall|j: int| 0 <= j < i ==> ids[j] != key@,
            key@ == id@,
        decreases cat.len() - i,
    {
        assert(ids[i as int] == cat@[i as int].id@);
        let m = cat[i];
        if crate::text::chars_eq(&chars_of(m.id), &key) {
            proof {
                lemma_find_id_skip(ids, key@, i as nat);
                assert(find_id_from(ids, key@, i as nat) == Some(i as int));
                assert(model_view(m) == model_views(cat@)[i as int]);
                assert(find_id_from(catalog_ids(), id@, 0) == Some(i as int));
                assert(model_view(m) == catalog_table()[i as int]);
            }
            return Some(m);
        }
        i = i + 1;
    }
    proof {
        lemma_find_id_skip(ids, key@, i as nat);
    }
    None
}

/// The image model with the id `id`.
pub fn image_def(id: &str) -> (r: Option<ImageModelDef>)
    ensures
        match find_id_from(image_catalog_ids(), id@, 0) {
            Some(k) => r is Some && image_def_view(r->0) == image_catalog_table()[k],
            None => r is None,
        },
{
    let mut cat = image_catalog();
    let key = chars_of(id);
    let ghost ids = image_catalog_ids();
    let mut i: usize = 0;
    while i < cat.len()
        invariant
            i <= cat.len(),
            image_def_views(cat@) == image_catalog_table(),
            ids == image_catalog_ids(),
            ids.len() == cat.len(),
            forall|j: int| 0 <= j < i ==> ids[j] != key@,
            key@ == id@,
        decreases cat.len() - i,
    {
        assert(ids[i as int] == cat@[i as int].id@);
        if crate::text::chars_eq(&chars_of(cat[i].id), &key) {
            proof {
                lemma_find_id_skip(ids, key@, i as nat);
                assert(find_id_from(ids, key@, i as nat) == Some(i as int));
            }
            let ghost views_before = image_def_views(cat@);
            let d = cat.remove(i);
            assert(image_def_view(d) == views_before[i as int]);
            assert(views_before[i as int] == image_catalog_table()[i as int]);
            return Some(d);
        }
        i = i + 1;
    }
    proof {
        lemma_find_id_skip(ids, key@, i as nat);
    }
    None
}

/// The sizes of files, added up.
pub open spec fn total_mb(files: Seq<(Seq<char>, Seq<char>, Seq<char>, u64)>) -> nat
    decreases files.len(),
{
    if files.len() == 0 {
        0
    } else {
        total_mb(files.drop_last()) + files.last().3 as nat
    }
}

/// The size of all files of an image model, in MiB.
pub fn image_total_mb(def: &ImageModelDef) -> (r: u64)
    requires
        total_mb(image_def_view(*def).2) <= u64::MAX,
    ensures
        r == total_mb(image_def_view(*def).2),
{
    let ghost fs = image_def_view(*def).2;
    let mut sum: u64 = 0;
    let mut i: usize = 0;
    while i < def.files.len()
        invariant
            i <= def.files.len(),
            fs == image_def_view(*def).2,
            fs.len() == def.files.len(),
            total_mb(fs) <= u64::MAX,
            sum == total_mb(fs.take(i as int)),
        decreases def.files.len() - i,
    {
        assert(fs.take(i + 1).drop_last() =~= fs.take(i as int));
        assert(fs.take(i + 1).last() == fs[i as int]);
        proof {
            lemma_total_mb_prefix(fs, i + 1);
        }
        sum = sum + def.files[i].size_mb;
        i = i + 1;
    }
    assert(fs.take(fs.len() as int) =~= fs);
    sum
}

proof fn lemma_total_mb_prefix(fs: Seq<(Seq<char>, Seq<char>, Seq<char>, u64)>, n: int)
    requires
        0 <= n <= fs.len(),
    ensures
        total_mb(fs.take(n)) <= total_mb(fs),
    decreases fs.len(),
{
    if n < fs.len() {
        lemma_total_mb_prefix(fs.drop_last(), n);
        assert(fs.drop_last().take(n) =~= fs.take(n));
    } else {
        assert(fs.take(n) =~= fs);
    }
}

/// The suffix of the text engine's model files.
pub const MODEL_SUFFIX: &'static str = ".gguf";

/// A file name in the models folder that is a text model.
pub open spec fn is_model_file_spec(name: Seq<char>) -> bool {
    name.len() >= MODEL_SUFFIX@.len() && occurs_at(
        name,
        MODEL_SUFFIX@,
        name.len() - MODEL_SUFFIX@.len(),
    )
}

/// Whether a file in the models folder is a text model (`.gguf`).
pub fn is_model_file(name: &str) -> (r: bool)
    ensures
        r == is_model_file_spec(name@),
{
    let v = chars_of(name);
    let suffix = chars_of(MODEL_SUFFIX);
    if v.len() < suffix.len() {
        return false;
    }
    occurs_at_chars(&v, &suffix, v.len() - suffix.len())
}

/// A model file name that stays in its folder: no `/` and no `\`.
pub open spec fn plain_name_spec(name: Seq<char>) -> bool {
    !name.contains('/') && !name.contains('\\')
}

/// Whether a model file name names a file in the models folder.
pub fn is_plain_file_name(name: &str) -> (r: bool)
    ensures
        r == plain_name_spec(name@),
{
    let v = chars_of(name);
    !has_char(&v, '/') && !has_char(&v, '\\')
}

pub const PARENT_DIR: &'static str = "..";

/// An image file name that stays in its folder: no `/`, no `\`, no `..`.
pub open spec fn safe_image_name_spec(name: Seq<char>) -> bool {
    plain_name_spec(name) && !contains(name, PARENT_DIR@)
}

/// Whether an image file name names a file in the images folder.
pub fn is_safe_image_name(name: &str) -> (r: bool)
    ensures
        r == safe_image_name_spec(name@),
{
    let v = chars_of(name);
    !has_char(&v, '/') && !has_char(&v, '\\') && !contains_chars(&v, &chars_of(PARENT_DIR))
}

/// A mebibyte.
pub const MIB: u64 = 1048576;

/// How many bytes a model download will bring: what the server announces,
/// else the size in the catalog.
pub open spec fn download_total_spec(content_length: Option<u64>, size_mb: u64) -> int {
    match content_length {
        Some(n) => n as int,
        None => size_mb * MIB,
    }
}

pub fn download_total(content_length: Option<u64>, size_mb: u64) -> (r: u64)
    requires
        size_mb * MIB <= u64::MAX,
    ensures
        r == download_total_spec(content_length, size_mb),
{
    match content_length {
        Some(n) => n,
        None => size_mb * MIB,
    }
}

/// Progress is reported when more than this many bytes came since the
/// last report.
pub const REPORT_STEP: u64 = 3145728;

/// The progress of one download: the bytes so far and the amount at the
/// last report.
pub struct DownloadProgress {
    pub downloaded: u64,
    pub last_report: u64,
}

impl DownloadProgress {
    pub fn new() -> (p: DownloadProgress)
        ensures
            p.downloaded == 0,
            p.last_report == 0,
    {
        DownloadProgress { downloaded: 0, last_report: 0 }
    }

    /// A chunk of `len` bytes arrived: the amount to report, if a report is
    /// due.
    pub fn chunk(&mut self, len: u64) -> (r: Option<u64>)
        requires
            old(self).last_report <= old(self).downloaded,
            old(self).downloaded + len <= u64::MAX,
        ensures
            final(self).downloaded == old(self).downloaded + len,
            final(self).last_report <= final(self).downloaded,
            (final(self).downloaded - old(self).last_report > REPORT_STEP) ==> r == Some(
                final(self).downloaded,
            ) && final(self).last_report == final(self).downloaded,
            !(final(self).downloaded - old(self).last_report > REPORT_STEP) ==> r is None
                && final(self).last_report == old(self).last_report,
    {
        self.downloaded = self.downloaded + len;
        if self.downloaded - self.last_report > REPORT_STEP {
            self.last_report = self.downloaded;
            Some(self.downloaded)
        } else {
            None
        }
    }
}

/// The bytes of an image model, all files together, by catalog sizes.
pub fn image_grand_total(def: &ImageModelDef) -> (r: u64)
    requires
        total_mb(image_def_view(*def).2) * MIB <= u64::MAX,
    ensures
        r == total_mb(image_def_view(*def).2) * MIB,
{
    let mb = image_total_mb(def);
    mb * MIB
}

/// The progress of an image model download over all its files: the bytes
/// of the files that are done, of the current file, and the overall amount
/// at the last report of the current file.
pub struct ImageDownloadProgress {
    pub done_bytes: u64,
    pub file_bytes: u64,
    pub last_report: u64,
}

impl ImageDownloadProgress {
    pub fn new() -> (p: ImageDownloadProgress)
        ensures
            p.done_bytes == 0,
            p.file_bytes == 0,
            p.last_report == 0,
    {
        ImageDownloadProgress { done_bytes: 0, file_bytes: 0, last_report: 0 }
    }

    /// A file that is already on disk counts with its catalog size.
    pub fn skip_file(&mut self, size_mb: u64)
        requires
            old(self).done_bytes + size_mb * MIB <= u64::MAX,
        ensures
            final(self).done_bytes == old(self).done_bytes + size_mb * MIB,
            final(self).file_bytes == old(self).file_bytes,
            final(self).last_report == old(self).last_report,
    {
        self.done_bytes = self.done_bytes + size_mb * MIB;
    }

    /// The download of a file starts.
    pub fn start_file(&mut self)
        ensures
            final(self).done_bytes == old(self).done_bytes,
            final(self).file_bytes == 0,
            final(self).last_report == 0,
    {
        self.file_bytes = 0;
        self.last_report = 0;
    }

    /// A chunk of `len` bytes of the current file arrived: the overall
    /// amount to report, if a report is due.
    pub fn chunk(&mut self, len: u64) -> (r: Option<u64>)
        requires
            old(self).last_report <= old(self).done_bytes + old(self).file_bytes,
            old(self).done_bytes + old(self).file_bytes + len <= u64::MAX,
        ensures
            final(self).done_bytes == old(self).done_bytes,
            final(self).file_bytes == old(self).file_bytes + len,
            final(self).last_report <= final(self).done_bytes + final(self).file_bytes,
            ({
                let overall = final(self).done_bytes + final(self).file_bytes;
                &&& overall - old(self).last_report > REPORT_STEP ==> r == Some(overall as u64)
                    && final(self).last_report == overall
                &&& !(overall - old(self).last_report > REPORT_STEP) ==> r is None && final(self).last_report == old(self).last_report
            }),
    {
        self.file_bytes = self.file_bytes + len;
        let overall = self.done_bytes + self.file_bytes;
        if overall - self.last_report > REPORT_STEP {
            self.last_report = overall;
            Some(overall)
        } else {
            None
        }
    }

    /// The current file is complete; it counts with the larger of its
    /// announced size and the bytes that came.
    pub fn finish_file(&mut self, file_total: u64)
        requires
            old(self).done_bytes + (if file_total >= old(self).file_bytes {
                file_total
            } else {
                old(self).file_bytes
            }) <= u64::MAX,
        ensures
            final(self).done_bytes == old(self).done_bytes + (if file_total >= old(self).file_bytes {
                file_total
            } else {
                old(self).file_bytes
            }),
            final(self).file_bytes == old(self).file_bytes,
            final(self).last_report == old(self).last_report,
    {
        let m = if file_total >= self.file_bytes {
            file_total
        } else {
            self.file_bytes
        };
        self.done_bytes = self.done_bytes + m;
    }
}


/// What `str::to_uppercase` makes of `s`: upper case as the Unicode
/// property `Uppercase` defines it.
pub uninterp spec fn unicode_upper(s: Seq<char>) -> Seq<char>;

/// `str::to_uppercase`. The contract only names the result.
#[verifier::external_body]
fn to_uppercase(s: &str) -> (r: String)
    ensures
        r@ == unicode_upper(s@),
{
    s.to_uppercase()
}

/// Words in a device name that mark a discrete graphics card.
pub open spec fn gpu_keywords() -> Seq<Seq<char>> {
    seq![
        "NVIDIA"@,
        "GEFORCE"@,
        "RTX"@,
        "GTX"@,
        "QUADRO"@,
        "TESLA"@,
        "RADEON RX"@,
        "RADEON PRO"@,
        "ARC"@,
    ]
}

/// A discrete graphics card, by its name in upper case.
pub open spec fn is_discrete_spec(name: Seq<char>) -> bool {
    exists|i: int| 0 <= i < gpu_keywords().len() && contains(unicode_upper(name), #[trigger] gpu_keywords()[i])
}

fn gpu_keyword_list() -> (r: Vec<&'static str>)
    ensures
        r@.map_values(|k: &'static str| k@) == gpu_keywords(),
{
    let mut r: Vec<&'static str> = Vec::new();
    r.push("NVIDIA");
    r.push("GEFORCE");
    r.push("RTX");
    r.push("GTX");
    r.push("QUADRO");
    r.push("TESLA");
    r.push("RADEON RX");
    r.push("RADEON PRO");
    r.push("ARC");
    assert(r@.map_values(|k: &'static str| k@) =~= gpu_keywords());
    r
}

/// Whether a graphics device is a discrete card rather than one built into
/// the processor, by its name.
pub fn is_discrete_gpu(name: &str) -> (r: bool)
    ensures
        r == is_discrete_spec(name@),
{
    let upper = chars_of(to_uppercase(name).as_str());
    let keys = gpu_keyword_list();
    let ghost kv = keys@.map_values(|k: &'static str| k@);
    let mut i: usize = 0;
    while i < keys.len()
        invariant
            i <= keys.len(),
            kv == keys@.map_values(|k: &'static str| k@),
            kv == gpu_keywords(),
            upper@ == unicode_upper(name@),
            forall|j: int| 0 <= j < i ==> !contains(upper@, #[trigger] gpu_keywords()[j]),
        decreases keys.len() - i,
    {
        assert(kv[i as int] == keys@[i as int]@);
        if contains_chars(&upper, &chars_of(keys[i])) {
            return true;
        }
        i = i + 1;
    }
    false
}

/// A graphics device that the engine lists: its name and its memory in MiB.
#[derive(Clone, Debug)]
pub struct GpuDevice {
    pub name: String,
    pub vram_mib: u64,
}

pub open spec fn device_views(v: Seq<GpuDevice>) -> Seq<(Seq<char>, u64)> {
    v.map_values(|d: GpuDevice| (d.name@, d.vram_mib))
}

/// The ASCII digits of `s`, in order.
pub open spec fn digits_only(s: Seq<char>) -> Seq<char>
    decreases s.len(),
{
    if s.len() == 0 {
        seq![]
    } else if is_digit(s.last()) {
        digits_only(s.drop_last()).push(s.last())
    } else {
        digits_only(s.drop_last())
    }
}

proof fn lemma_digits_only(s: Seq<char>)
    ensures
        forall|i: int| 0 <= i < digits_only(s).len() ==> is_digit(#[trigger] digits_only(s)[i]),
    decreases s.len(),
{
    if s.len() > 0 {
        lemma_digits_only(s.drop_last());
        let d = digits_only(s.drop_last());
        if is_digit(s.last()) {
            assert forall|i: int| 0 <= i < d.push(s.last()).len() implies is_digit(
                #[trigger] d.push(s.last())[i],
            ) by {
                if i < d.len() {
                    assert(d.push(s.last())[i] == d[i]);
                }
            }
        }
    }
}

pub const MIB_MARK: &'static str = " MiB";

pub const NAME_MARK: &'static str = ": ";

/// A device line of `llama-server --list-devices` looks like
/// `  Vulkan0: NVIDIA GeForce RTX 5070 Ti (15995 MiB, 15227 MiB free)`:
/// the name stands between `: ` (or the line's start) and the first `(`,
/// the memory is the number before the first ` MiB` after it. Lines
/// without these, or with an empty name, are no device.
pub open spec fn device_of_line(line: Seq<char>) -> Option<(Seq<char>, u64)> {
    match first_occurrence(line, seq!['(']) {
        None => None,
        Some(op) => {
            let after = line.subrange(op + 1, line.len() as int);
            match first_occurrence(after, MIB_MARK@) {
                None => None,
                Some(mp) => match parse_digits(digits_only(after.subrange(0, mp))) {
                    None => None,
                    Some(n) => {
                        let name = match first_occurrence(line, NAME_MARK@) {
                            Some(c) => trim(line.subrange(c + 2, op)),
                            None => trim(line.subrange(0, op)),
                        };
                        if name.len() > 0 {
                            Some((name, n))
                        } else {
                            None
                        }
                    },
                },
            }
        },
    }
}

/// A line whose first `: ` comes after its first `(` while a memory figure
/// is found: the name would be the text between the two, which runs
/// backwards, so such a line has no name that can be read.
pub open spec fn line_slices_backwards(line: Seq<char>) -> bool {
    match first_occurrence(line, seq!['(']) {
        None => false,
        Some(op) => {
            let after = line.subrange(op + 1, line.len() as int);
            match first_occurrence(after, MIB_MARK@) {
                None => false,
                Some(mp) => match parse_digits(digits_only(after.subrange(0, mp))) {
                    None => false,
                    Some(n) => match first_occurrence(line, NAME_MARK@) {
                        Some(c) => c + 2 > op,
                        None => false,
                    },
                },
            }
        },
    }
}

/// The devices of the lines `ls`, in order.
pub open spec fn devices_of(ls: Seq<Seq<char>>) -> Seq<(Seq<char>, u64)>
    decreases ls.len(),
{
    if ls.len() == 0 {
        seq![]
    } else {
        let r = devices_of(ls.drop_last());
        match device_of_line(ls.last()) {
            Some(d) => r.push(d),
            None => r,
        }
    }
}

/// Every line of `text` can be read without slicing backwards.
pub open spec fn device_text_readable(text: Seq<char>) -> bool {
    forall|i: int| 0 <= i < lines(text).len() ==> !line_slices_backwards(#[trigger] lines(text)[i])
}

fn digits_of(v: &Vec<char>) -> (r: Vec<char>)
    ensures
        r@ == digits_only(v@),
{
    let mut r: Vec<char> = Vec::new();
    let mut i: usize = 0;
    while i < v.len()
        invariant
            i <= v.len(),
            r@ == digits_only(v@.take(i as int)),
        decreases v.len() - i,
    {
        assert(v@.take(i + 1).drop_last() =~= v@.take(i as int));
        assert(v@.take(i + 1).last() == v@[i as int]);
        if is_digit_char(v[i]) {
            r.push(v[i]);
        }
        i = i + 1;
    }
    assert(v@.take(v.len() as int) =~= v@);
    r
}

enum LineRead {
    NoDevice,
    Device(Vec<char>, u64),
    Backwards,
}

fn read_line(line: &Vec<char>) -> (r: LineRead)
    ensures
        match r {
            LineRead::NoDevice => device_of_line(line@) is None && !line_slices_backwards(line@),
            LineRead::Device(name, n) => device_of_line(line@) == Some((name@, n))
                && !line_slices_backwards(line@),
            LineRead::Backwards => line_slices_backwards(line@),
        },
{
    let mut open: Vec<char> = Vec::new();
    open.push('(');
    assert(open@ =~= seq!['(']);
    let op = match find_chars(line, &open) {
        None => {
            return LineRead::NoDevice;
        },
        Some(op) => op,
    };
    proof {
        lemma_first_occurrence(line@, seq!['(']);
    }
    let len = line.len();
    assert(occurs_at(line@, open@, op as int));
    let after = slice_chars(line, op + 1, len);
    let mp = match find_chars(&after, &chars_of(MIB_MARK)) {
        None => {
            return LineRead::NoDevice;
        },
        Some(mp) => mp,
    };
    proof {
        lemma_first_occurrence(after@, MIB_MARK@);
    }
    let num_part = slice_chars(&after, 0, mp);
    let digits = digits_of(&num_part);
    proof {
        lemma_digits_only(num_part@);
    }
    let n = match parse_digits_chars(&digits) {
        None => {
            return LineRead::NoDevice;
        },
        Some(n) => n,
    };
    let name_part = match find_chars(line, &chars_of(NAME_MARK)) {
        Some(c) => {
            proof {
                lemma_first_occurrence(line@, NAME_MARK@);
                reveal_strlit(": ");
            }
            if c + 2 > op {
                return LineRead::Backwards;
            }
            slice_chars(line, c + 2, op)
        },
        None => slice_chars(line, 0, op),
    };
    let name = trim_chars(&name_part, CharClass::Whitespace);
    if name.len() > 0 {
        LineRead::Device(name, n)
    } else {
        LineRead::NoDevice
    }
}

/// Whether every line of the device list can be read; the reading panics
/// on the others.
pub fn device_list_readable(text: &str) -> (r: bool)
    ensures
        r == device_text_readable(text@),
{
    let ls = lines_of(&chars_of(text));
    let mut i: usize = 0;
    while i < ls.len()
        invariant
            i <= ls.len(),
            views(ls@) == lines(text@),
            forall|j: int| 0 <= j < i ==> !line_slices_backwards(#[trigger] lines(text@)[j]),
        decreases ls.len() - i,
    {
        assert(views(ls@)[i as int] == ls@[i as int]@);
        match read_line(&ls[i]) {
            LineRead::Backwards => {
                return false;
            },
            _ => {},
        }
        i = i + 1;
    }
    true
}

/// The devices that the engine's device list names.
pub fn parse_devices(text: &str) -> (r: Vec<GpuDevice>)
    requires
        device_text_readable(text@),
    ensures
        device_views(r@) == devices_of(lines(text@)),
{
    let ls = lines_of(&chars_of(text));
    let mut r: Vec<GpuDevice> = Vec::new();
    let mut i: usize = 0;
    while i < ls.len()
        invariant
            i <= ls.len(),
            views(ls@) == lines(text@),
            device_text_readable(text@),
            device_views(r@) == devices_of(views(ls@).take(i as int)),
        decreases ls.len() - i,
    {
        assert(views(ls@).take(i + 1).drop_last() =~= views(ls@).take(i as int));
        assert(views(ls@).take(i + 1).last() == ls@[i as int]@);
        assert(!line_slices_backwards(lines(text@)[i as int]));
        match read_line(&ls[i]) {
            LineRead::Device(name, n) => {
                let ghost before = device_views(r@);
                let ghost nv = name@;
                r.push(GpuDevice { name: string_of(&name), vram_mib: n });
                assert(device_views(r@) =~= before.push((nv, n)));
            },
            _ => {},
        }
        i = i + 1;
    }
    assert(views(ls@).take(ls.len() as int) =~= views(ls@));
    r
}

/// The first discrete device, by index.
pub open spec fn first_discrete(ds: Seq<(Seq<char>, u64)>, i: nat) -> Option<int>
    decreases ds.len() - i,
{
    if i >= ds.len() {
        None
    } else if is_discrete_spec(ds[i as int].0) {
        Some(i as int)
    } else {
        first_discrete(ds, i + 1)
    }
}

/// The index of the device with the most memory, the last of equals
/// (`Iterator::max_by_key`).
pub open spec fn last_max_index(ds: Seq<(Seq<char>, u64)>) -> int
    decreases ds.len(),
{
    if ds.len() <= 1 {
        0
    } else {
        let k = last_max_index(ds.drop_last());
        if ds.last().1 >= ds[k].1 {
            ds.len() - 1
        } else {
            k
        }
    }
}

/// The chosen graphics device: its name, its memory in MiB and whether it
/// is discrete.
#[derive(Clone, Debug)]
pub struct GpuChoice {
    pub name: String,
    pub vram_mib: u64,
    pub discrete: bool,
}

/// The first discrete device, else the one with the most memory; none when
/// the list is empty.
pub open spec fn choose_gpu_spec(ds: Seq<(Seq<char>, u64)>) -> Option<(Seq<char>, u64, bool)> {
    if ds.len() == 0 {
        None
    } else {
        let k = match first_discrete(ds, 0) {
            Some(k) => k,
            None => last_max_index(ds),
        };
        Some((ds[k].0, ds[k].1, is_discrete_spec(ds[k].0)))
    }
}

proof fn lemma_last_max_bounds(ds: Seq<(Seq<char>, u64)>)
    requires
        ds.len() > 0,
    ensures
        0 <= last_max_index(ds) < ds.len(),
    decreases ds.len(),
{
    if ds.len() > 1 {
        lemma_last_max_bounds(ds.drop_last());
    }
}

proof fn lemma_first_discrete_skip(ds: Seq<(Seq<char>, u64)>, i: nat)
    requires
        i <= ds.len(),
        forall|j: int| 0 <= j < i ==> !is_discrete_spec(#[trigger] ds[j].0),
    ensures
        first_discrete(ds, 0) == first_discrete(ds, i),
    decreases i,
{
    if i > 0 {
        lemma_first_discrete_skip(ds, (i - 1) as nat);
    }
}

pub open spec fn choice_view(c: Option<GpuChoice>) -> Option<(Seq<char>, u64, bool)> {
    match c {
        Some(g) => Some((g.name@, g.vram_mib, g.discrete)),
        None => None,
    }
}

/// Prefers a discrete card: an integrated one shows shared system memory,
/// which misleads.
pub fn choose_gpu(devices: &Vec<GpuDevice>) -> (r: Option<GpuChoice>)
    ensures
        choice_view(r) == choose_gpu_spec(device_views(devices@)),
{
    let ghost ds = device_views(devices@);
    if devices.len() == 0 {
        return None;
    }
    let mut i: usize = 0;
    while i < devices.len()
        invariant
            i <= devices.len(),
            ds == device_views(devices@),
            forall|j: int| 0 <= j < i ==> !is_discrete_spec(#[trigger] ds[j].0),
        decreases devices.len() - i,
    {
        assert(ds[i as int].0 == devices@[i as int].name@);
        if is_discrete_gpu(devices[i].name.as_str()) {
            proof {
                lemma_first_discrete_skip(ds, i as nat);
            }
            return Some(
                GpuChoice {
                    name: devices[i].name.clone(),
                    vram_mib: devices[i].vram_mib,
                    discrete: true,
                },
            );
        }
        i = i + 1;
    }
    proof {
        lemma_first_discrete_skip(ds, i as nat);
    }
    let mut k: usize = 0;
    let mut j: usize = 1;
    while j < devices.len()
        invariant
            1 <= j <= devices.len(),
            ds == device_views(devices@),
            k < j,
            k == last_max_index(ds.take(j as int)),
        decreases devices.len() - j,
    {
        assert(ds.take(j + 1).drop_last() =~= ds.take(j as int));
        assert(ds.take(j + 1).last() == ds[j as int]);
        assert(ds.take(j + 1)[k as int] == ds[k as int]);
        if devices[j].vram_mib >= devices[k].vram_mib {
            k = j;
        }
        j = j + 1;
    }
    assert(ds.take(devices.len() as int) =~= ds);
    assert(!is_discrete_spec(ds[k as int].0));
    Some(GpuChoice { name: devices[k].name.clone(), vram_mib: devices[k].vram_mib, discrete: false })
}

/// Memory thresholds, in MiB, for the text models on a discrete card.
pub const VRAM_BIG14_MIB: u64 = 11264;

pub const VRAM_BIG8_MIB: u64 = 7168;

pub const VRAM_STANDARD_MIB: u64 = 4096;

pub const VRAM_LIGHT_MIB: u64 = 1024;

/// System memory, in bytes, from which the standard model suits a machine
/// without a discrete card.
pub const RAM_STANDARD_BYTES: u64 = 17179869184;

/// Memory, in MiB, from which a discrete card runs the Chroma image model.
pub const VRAM_CHROMA_MIB: u64 = 12288;

/// The text model that suits the hardware: by the memory of a discrete
/// card (11, 7, 4, 1 GiB), else by system memory (16 GiB).
pub open spec fn recommend_model_spec(discrete: bool, vram_mib: u64, ram_bytes: u64) -> Seq<char> {
    if discrete && vram_mib >= VRAM_BIG14_MIB {
        "big14"@
    } else if discrete && vram_mib >= VRAM_BIG8_MIB {
        "big8"@
    } else if discrete && vram_mib >= VRAM_STANDARD_MIB {
        "standard"@
    } else if discrete && vram_mib >= VRAM_LIGHT_MIB {
        "light"@
    } else if ram_bytes >= RAM_STANDARD_BYTES {
        "standard"@
    } else {
        "light"@
    }
}

/// Recommends a text model by catalog id.
pub fn recommend_model(discrete: bool, vram_mib: u64, ram_bytes: u64) -> (r: &'static str)
    ensures
        r@ == recommend_model_spec(discrete, vram_mib, ram_bytes),
{
    if discrete && vram_mib >= VRAM_BIG14_MIB {
        "big14"
    } else if discrete && vram_mib >= VRAM_BIG8_MIB {
        "big8"
    } else if discrete && vram_mib >= VRAM_STANDARD_MIB {
        "standard"
    } else if discrete && vram_mib >= VRAM_LIGHT_MIB {
        "light"
    } else if ram_bytes >= RAM_STANDARD_BYTES {
        "standard"
    } else {
        "light"
    }
}

/// The image model that suits the hardware: Chroma on a discrete card with
/// 12 GiB, else SDXL.
pub open spec fn recommend_image_model_spec(discrete: bool, vram_mib: u64) -> Seq<char> {
    if discrete && vram_mib >= VRAM_CHROMA_MIB {
        "chroma"@
    } else {
        "sdxl"@
    }
}

/// Recommends an image model by catalog id.
pub fn recommend_image_model(discrete: bool, vram_mib: u64) -> (r: &'static str)
    ensures
        r@ == recommend_image_model_spec(discrete, vram_mib),
{
    if discrete && vram_mib >= VRAM_CHROMA_MIB {
        "chroma"
    } else {
        "sdxl"
    }
}

/// Whatever the hardware, the recommended text model is one of the
/// catalog, and so is the recommended image model.
pub proof fn lemma_recommendations_in_catalogs(discrete: bool, vram_mib: u64, ram_bytes: u64)
    ensures
        catalog_ids().contains(recommend_model_spec(discrete, vram_mib, ram_bytes)),
        image_catalog_ids().contains(recommend_image_model_spec(discrete, vram_mib)),
{
    let r = recommend_model_spec(discrete, vram_mib, ram_bytes);
    let ids = catalog_ids();
    assert(ids[0] == "standard"@);
    assert(ids[1] == "light"@);
    assert(ids[2] == "big8"@);
    assert(ids[3] == "big14"@);
    let im = image_catalog_ids();
    assert(im[0] == "sdxl"@);
    assert(im[1] == "chroma"@);
}

/// With a discrete card of at least 1 GiB the card alone decides: the
/// system memory plays no part, and each band of video memory has its
/// model (1 to 4 GiB light, 4 to 7 GiB standard, 7 to 11 GiB big8, from
/// 11 GiB big14). Without a discrete card, or with a smaller one, the
/// system memory decides (standard from 16 GiB, else light) and the
/// card's memory plays no part.
pub proof fn lemma_recommendation_by_card(vram_mib: u64, ram_a: u64, ram_b: u64, discrete: bool)
    ensures
        vram_mib >= 1024 ==> recommend_model_spec(true, vram_mib, ram_a) == recommend_model_spec(
            true,
            vram_mib,
            ram_b,
        ),
        1024 <= vram_mib < 4096 ==> recommend_model_spec(true, vram_mib, ram_a) == "light"@,
        4096 <= vram_mib < 7168 ==> recommend_model_spec(true, vram_mib, ram_a) == "standard"@,
        7168 <= vram_mib < 11264 ==> recommend_model_spec(true, vram_mib, ram_a) == "big8"@,
        11264 <= vram_mib ==> recommend_model_spec(true, vram_mib, ram_a) == "big14"@,
        !discrete || vram_mib < 1024 ==> recommend_model_spec(discrete, vram_mib, ram_a) == (if ram_a
            >= 17179869184 {
            "standard"@
        } else {
            "light"@
        }),
        recommend_image_model_spec(discrete, vram_mib) == (if discrete && vram_mib >= 12288 {
            "chroma"@
        } else {
            "sdxl"@
        }),
{
}

proof fn lemma_first_discrete(ds: Seq<(Seq<char>, u64)>, i: nat)
    ensures
        first_discrete(ds, i) matches Some(k) ==> i <= k < ds.len() && is_discrete_spec(ds[k].0)
            && forall|j: int| i <= j < k ==> !is_discrete_spec(#[trigger] ds[j].0),
        first_discrete(ds, i) is None ==> forall|j: int|
            i <= j < ds.len() ==> !is_discrete_spec(#[trigger] ds[j].0),
    decreases ds.len() - i,
{
    if i < ds.len() && !is_discrete_spec(ds[i as int].0) {
        lemma_first_discrete(ds, i + 1);
    }
}

proof fn lemma_last_max(ds: Seq<(Seq<char>, u64)>)
    requires
        ds.len() > 0,
    ensures
        0 <= last_max_index(ds) < ds.len(),
        forall|j: int| 0 <= j < ds.len() ==> #[trigger] ds[j].1 <= ds[last_max_index(ds)].1,
        forall|j: int| last_max_index(ds) < j < ds.len() ==> #[trigger] ds[j].1 < ds[last_max_index(ds)].1,
    decreases ds.len(),
{
    if ds.len() > 1 {
        let d = ds.drop_last();
        lemma_last_max(d);
        assert forall|j: int| 0 <= j < d.len() implies #[trigger] ds[j].1 == d[j].1 by {}
    }
}

/// The chosen device is one of the list. When some device is discrete it
/// is the first discrete one in list order; when none is, it is one with
/// the most memory, the last of those.
pub proof fn lemma_choice_prefers_first_discrete(ds: Seq<(Seq<char>, u64)>)
    ensures
        ds.len() == 0 <==> choose_gpu_spec(ds) is None,
        (exists|i: int| 0 <= i < ds.len() && is_discrete_spec(#[trigger] ds[i].0)) ==> exists|k: int|
            0 <= k < ds.len() && is_discrete_spec(ds[k].0) && (forall|j: int|
                0 <= j < k ==> !is_discrete_spec(#[trigger] ds[j].0)) && choose_gpu_spec(ds)
                == Some((ds[k].0, ds[k].1, true)),
        ds.len() > 0 && (forall|i: int| 0 <= i < ds.len() ==> !is_discrete_spec(#[trigger] ds[i].0))
            ==> exists|k: int|
            0 <= k < ds.len() && choose_gpu_spec(ds) == Some((ds[k].0, ds[k].1, false)) && (forall|
                j: int,
            | 0 <= j < ds.len() ==> #[trigger] ds[j].1 <= ds[k].1) && (forall|j: int|
                k < j < ds.len() ==> #[trigger] ds[j].1 < ds[k].1),
{
    lemma_first_discrete(ds, 0);
    if ds.len() > 0 {
        lemma_last_max(ds);
        match first_discrete(ds, 0) {
            Some(k) => {
                assert(is_discrete_spec(ds[k].0));
            },
            None => {
                let k = last_max_index(ds);
                assert(!is_discrete_spec(ds[k].0));
            },
        }
    }
}

} // verus!
