//! The image engine (a stable-diffusion.cpp server), loaded lazily and
//! unloaded when idle: its status and loading decisions, the arguments it
//! runs with, and the handling of the pictures it returns.
use vstd::prelude::*;
use base64::Engine;
use crate::errors::{CANCELED, DECODE_ERROR, EMPTY, ENGINE_MISSING, NO_JOB_ID, ENGINE_PREFIX, LOAD_TIMEOUT, MODEL_MISSING, NO_MODEL};
use crate::llama::LoadStep;
use crate::models::{find_id_from, image_catalog_ids, image_catalog_table, image_def};
use crate::reply::{decode_error, list_result_view, string_views, text_result_view};
use crate::json::{
    item_views, json_bytes_field_items, json_bytes_field_items_at, json_bytes_items,
    json_bytes_items_at, json_bytes_key_str, json_bytes_key_str_at, json_bytes_parse,
    opt_item_views,
};
use crate::text::{
    chars_eq, chars_of, decimal, decimal_chars, extend_chars, last_occurrence,
    lemma_last_occurrence, occurs_at, rfind_chars, slice_chars, string_of,
};

verus! {

/// The state of the image engine.
#[derive(Clone, Debug, PartialEq, Eq, Default)]
pub enum Status {
    #[default]
    Stopped,
    Loading,
    Ready,
    Error(String),
}

/// How the front end names a status.
pub open spec fn status_text(s: Status) -> Seq<char> {
    match s {
        Status::Stopped => crate::llama::STOPPED_TEXT@,
        Status::Loading => crate::llama::LOADING_TEXT@,
        Status::Ready => crate::llama::READY_TEXT@,
        Status::Error(e) => crate::llama::ERROR_TEXT_PREFIX@ + e@,
    }
}

impl Status {
    /// The status as the front end names it: `stopped`, `loading`, `ready`
    /// or `error:` and the message.
    pub fn status_string(&self) -> (r: String)
        ensures
            r@ == status_text(*self),
    {
        match self {
            Status::Stopped => String::from_str(crate::llama::STOPPED_TEXT),
            Status::Loading => String::from_str(crate::llama::LOADING_TEXT),
            Status::Ready => String::from_str(crate::llama::READY_TEXT),
            Status::Error(e) => {
                let mut r = String::from_str(crate::llama::ERROR_TEXT_PREFIX);
                r.append(e.as_str());
                r
            },
        }
    }
}

/// After how many idle seconds (ten minutes) the image model leaves memory.
pub const IDLE_UNLOAD_SECS: u64 = 600;

/// The image engine as the application tracks it. The process is held by
/// the application; `loaded` says whether it holds one. `busy` is set
/// while a picture is being made, and `last_used` is the time of the last
/// activity, in seconds since the epoch.
pub struct ImageEngine {
    pub port: u16,
    pub status: Status,
    pub generation: u64,
    pub busy: bool,
    pub last_used: u64,
    pub loaded: bool,
}

impl ImageEngine {
    pub fn new() -> (e: ImageEngine)
        ensures
            e.status == Status::Stopped,
            e.generation == 0,
            !e.busy,
            !e.loaded,
            e.last_used == 0,
            e.port == 0,
    {
        ImageEngine {
            port: 0,
            status: Status::Stopped,
            generation: 0,
            busy: false,
            last_used: 0,
            loaded: false,
        }
    }

    /// Stops the engine: a new generation, no process, not busy, `Stopped`.
    pub fn kill(&mut self)
        requires
            old(self).generation < u64::MAX,
        ensures
            final(self).generation == old(self).generation + 1,
            final(self).status == Status::Stopped,
            !final(self).loaded,
            !final(self).busy,
            final(self).port == old(self).port,
            final(self).last_used == old(self).last_used,
    {
        self.generation = self.generation + 1;
        self.loaded = false;
        self.busy = false;
        self.status = Status::Stopped;
    }

    /// The port of a loaded, ready engine, which counts as used at `now`.
    pub fn ready_port(&mut self, now: u64) -> (r: Option<u16>)
        ensures
            (old(self).status == Status::Ready && old(self).loaded) ==> r == Some(old(self).port)
                && final(self).last_used == now,
            !(old(self).status == Status::Ready && old(self).loaded) ==> r is None && *final(self)
                == *old(self),
            final(self).status == old(self).status,
            final(self).generation == old(self).generation,
            final(self).busy == old(self).busy,
            final(self).loaded == old(self).loaded,
            final(self).port == old(self).port,
    {
        match self.status {
            Status::Ready => {
                if self.loaded {
                    self.last_used = now;
                    return Some(self.port);
                }
                None
            },
            _ => None,
        }
    }

    /// A new load begins: the old process goes, a new generation starts,
    /// the engine is loading.
    pub fn begin_load(&mut self)
        requires
            old(self).generation < u64::MAX,
        ensures
            final(self).generation == old(self).generation + 1,
            final(self).status == Status::Loading,
            !final(self).loaded,
            final(self).busy == old(self).busy,
            final(self).last_used == old(self).last_used,
            final(self).port == old(self).port,
    {
        self.generation = self.generation + 1;
        self.loaded = false;
        self.status = Status::Loading;
    }

    /// Records an error.
    pub fn set_error(&mut self, msg: &str)
        ensures
            final(self).status is Error && final(self).status->Error_0@ == msg@,
            final(self).generation == old(self).generation,
            final(self).busy == old(self).busy,
            final(self).loaded == old(self).loaded,
            final(self).port == old(self).port,
            final(self).last_used == old(self).last_used,
    {
        self.status = Status::Error(String::from_str(msg));
    }

    /// The process was started on `port`: it is held, the engine is
    /// loading, in the current generation, which the loader keeps.
    pub fn started(&mut self, port: u16) -> (my_gen: u64)
        ensures
            final(self).port == port,
            final(self).status == Status::Loading,
            final(self).loaded,
            final(self).generation == old(self).generation,
            final(self).busy == old(self).busy,
            final(self).last_used == old(self).last_used,
            my_gen == old(self).generation,
    {
        self.loaded = true;
        self.port = port;
        self.status = Status::Loading;
        self.generation
    }

    /// A loader of generation `my_gen` looks at the engine; `exit` is the
    /// exit status of the process if it has ended.
    pub fn check_alive(&mut self, my_gen: u64, exit: Option<String>) -> (r: LoadStep)
        ensures
            old(self).generation != my_gen ==> r == LoadStep::Superseded && *final(self)
                == *old(self),
            old(self).generation == my_gen && exit is Some ==> r == LoadStep::Exited
                && final(self).status is Error && final(self).status->Error_0@
                == crate::llama::EXITED_PREFIX@ + exit->0@,
            old(self).generation == my_gen && exit is None ==> r == LoadStep::Wait && *final(self)
                == *old(self),
            final(self).generation == old(self).generation,
            final(self).busy == old(self).busy,
            final(self).loaded == old(self).loaded,
            final(self).port == old(self).port,
            final(self).last_used == old(self).last_used,
    {
        if self.generation != my_gen {
            return LoadStep::Superseded;
        }
        match exit {
            Some(st) => {
                let mut m = String::from_str(crate::llama::EXITED_PREFIX);
                m.append(st.as_str());
                self.status = Status::Error(m);
                LoadStep::Exited
            },
            None => LoadStep::Wait,
        }
    }

    /// The health check answered (`healthy`) or not; a ready engine counts
    /// as used at `now`.
    pub fn health_checked(&mut self, my_gen: u64, healthy: bool, now: u64) -> (r: LoadStep)
        ensures
            !healthy ==> r == LoadStep::Wait && *final(self) == *old(self),
            healthy && old(self).generation != my_gen ==> r == LoadStep::Superseded && *final(self)
                == *old(self),
            healthy && old(self).generation == my_gen ==> r == LoadStep::Ready && final(self).status
                == Status::Ready && final(self).last_used == now,
            final(self).generation == old(self).generation,
            final(self).busy == old(self).busy,
            final(self).loaded == old(self).loaded,
            final(self).port == old(self).port,
    {
        if !healthy {
            return LoadStep::Wait;
        }
        if self.generation != my_gen {
            return LoadStep::Superseded;
        }
        self.status = Status::Ready;
        self.last_used = now;
        LoadStep::Ready
    }

    /// The engine did not become ready in time.
    pub fn timed_out(&mut self)
        ensures
            final(self).status is Error && final(self).status->Error_0@ == LOAD_TIMEOUT@,
            final(self).generation == old(self).generation,
            final(self).busy == old(self).busy,
            final(self).loaded == old(self).loaded,
            final(self).port == old(self).port,
            final(self).last_used == old(self).last_used,
    {
        self.status = Status::Error(String::from_str(LOAD_TIMEOUT));
    }

    /// A picture is being made from `now` on.
    pub fn begin_work(&mut self, now: u64)
        ensures
            final(self).busy,
            final(self).last_used == now,
            final(self).status == old(self).status,
            final(self).generation == old(self).generation,
            final(self).loaded == old(self).loaded,
            final(self).port == old(self).port,
    {
        self.busy = true;
        self.last_used = now;
    }

    /// The picture is done at `now`.
    pub fn end_work(&mut self, now: u64)
        ensures
            !final(self).busy,
            final(self).last_used == now,
            final(self).status == old(self).status,
            final(self).generation == old(self).generation,
            final(self).loaded == old(self).loaded,
            final(self).port == old(self).port,
    {
        self.busy = false;
        self.last_used = now;
    }

    /// Whether the idle monitor unloads the model at `now`: it is ready,
    /// nothing is being made, and it has been idle long enough.
    pub fn should_unload(&self, now: u64) -> (r: bool)
        ensures
            r == (self.status == Status::Ready && !self.busy && (if now >= self.last_used {
                now - self.last_used
            } else {
                0
            }) >= IDLE_UNLOAD_SECS),
    {
        let ready = match self.status {
            Status::Ready => true,
            _ => false,
        };
        ready && !self.busy && now.saturating_sub(self.last_used) >= IDLE_UNLOAD_SECS
    }

    /// The status as the front end names it.
    pub fn status_string(&self) -> (r: String)
        ensures
            r@ == status_text(self.status),
    {
        self.status.status_string()
    }
}

/// The idle monitor never unloads a model that is busy or not ready.
pub proof fn lemma_unload_only_idle_ready(e: ImageEngine, now: u64)
    requires
        e.busy || e.status != Status::Ready,
    ensures
        !(e.status == Status::Ready && !e.busy && (if now >= e.last_used {
            now - e.last_used
        } else {
            0
        }) >= IDLE_UNLOAD_SECS),
{
}

/// What switching the image tab asks: entering unloads the text model;
/// leaving, when nothing is being made, unloads the image model and
/// brings the text model back.
#[derive(Clone, Copy, Debug, PartialEq, Eq)]
pub struct ModeActions {
    pub unload_text: bool,
    pub unload_image: bool,
    pub restart_text: bool,
}

/// Entering the tab (`on`) unloads the text model; leaving it, while no
/// picture is being made (`busy`), unloads the image model and brings the
/// text model back.
pub open spec fn mode_actions_spec(on: bool, busy: bool) -> ModeActions {
    ModeActions { unload_text: on, unload_image: !on && !busy, restart_text: !on && !busy }
}

pub fn image_mode_actions(on: bool, busy: bool) -> (a: ModeActions)
    ensures
        a == mode_actions_spec(on, busy),
{
    if on {
        ModeActions { unload_text: true, unload_image: false, restart_text: false }
    } else if !busy {
        ModeActions { unload_text: false, unload_image: true, restart_text: true }
    } else {
        ModeActions { unload_text: false, unload_image: false, restart_text: false }
    }
}

/// What a picture request asks of the engines before it starts: only the
/// image model stays in video memory, so the text model is unloaded.
pub open spec fn generation_start_spec() -> ModeActions {
    ModeActions { unload_text: true, unload_image: false, restart_text: false }
}

/// What a finished picture request asks: when the image tab is no longer
/// open, the image model leaves memory and the text model comes back;
/// while it is open, both stay as they are until the tab is left.
pub open spec fn generation_end_spec(image_mode_active: bool) -> ModeActions {
    ModeActions {
        unload_text: false,
        unload_image: !image_mode_active,
        restart_text: !image_mode_active,
    }
}

pub fn generation_start_actions() -> (a: ModeActions)
    ensures
        a == generation_start_spec(),
{
    ModeActions { unload_text: true, unload_image: false, restart_text: false }
}

pub fn generation_end_actions(image_mode_active: bool) -> (a: ModeActions)
    ensures
        a == generation_end_spec(image_mode_active),
{
    ModeActions {
        unload_text: false,
        unload_image: !image_mode_active,
        restart_text: !image_mode_active,
    }
}

/// The text model that a picture request unloads comes back: at once when
/// the request ends outside the image tab, and otherwise when the tab is
/// left, since by then nothing is being made.
pub proof fn lemma_text_model_comes_back(image_mode_active: bool)
    ensures
        generation_start_spec().unload_text,
        generation_end_spec(image_mode_active).restart_text
            || (image_mode_active && mode_actions_spec(false, false).restart_text),
{
}

/// A file of the active image model as it lies on disk.
#[derive(Clone, Debug)]
pub struct LocalFile {
    pub role: String,
    pub path: String,
    pub present: bool,
}

pub open spec fn local_views(v: Seq<LocalFile>) -> Seq<(Seq<char>, Seq<char>, bool)> {
    v.map_values(|f: LocalFile| (f.role@, f.path@, f.present))
}

/// The path of the first file with the role `role`.
pub open spec fn role_path(files: Seq<(Seq<char>, Seq<char>, bool)>, role: Seq<char>) -> Option<
    Seq<char>,
>
    decreases files.len(),
{
    if files.len() == 0 {
        None
    } else if files[0].0 == role {
        Some(files[0].1)
    } else {
        role_path(files.drop_first(), role)
    }
}

pub open spec fn all_present(files: Seq<(Seq<char>, Seq<char>, bool)>) -> bool {
    forall|i: int| 0 <= i < files.len() ==> #[trigger] files[i].2
}

pub const ARG_DIFFUSION_FA: &'static str = "--diffusion-fa";

pub const ARG_VAE_TILING: &'static str = "--vae-tiling";

pub const ARG_CLIP_ON_CPU: &'static str = "--clip-on-cpu";

/// The model arguments by kind: a single SDXL checkpoint; Chroma's
/// diffusion model, T5 encoder and VAE (without the DiT mask, encoders on
/// the CPU); FLUX Kontext's diffusion model, CLIP-L, T5 and VAE (encoders
/// on the CPU).
pub open spec fn kind_args(kind: Seq<char>, files: Seq<(Seq<char>, Seq<char>, bool)>) -> Option<
    Seq<Seq<char>>,
> {
    if kind == "sdxl"@ {
        match role_path(files, "model"@) {
            Some(m) => Some(seq!["-m"@, m]),
            None => None,
        }
    } else if kind == "chroma"@ {
        match (role_path(files, "diffusion"@), role_path(files, "t5xxl"@), role_path(files, "vae"@)) {
            (Some(d), Some(t), Some(v)) => Some(
                seq![
                    "--diffusion-model"@,
                    d,
                    "--t5xxl"@,
                    t,
                    "--vae"@,
                    v,
                    "--model-args"@,
                    "chroma_use_dit_mask=false"@,
                    ARG_CLIP_ON_CPU@,
                ],
            ),
            _ => None,
        }
    } else if kind == "kontext"@ {
        match (
            role_path(files, "diffusion"@),
            role_path(files, "clip_l"@),
            role_path(files, "t5xxl"@),
            role_path(files, "vae"@),
        ) {
            (Some(d), Some(c), Some(t), Some(v)) => Some(
                seq![
                    "--diffusion-model"@,
                    d,
                    "--clip_l"@,
                    c,
                    "--t5xxl"@,
                    t,
                    "--vae"@,
                    v,
                    ARG_CLIP_ON_CPU@,
                ],
            ),
            _ => None,
        }
    } else {
        None
    }
}

/// The arguments of the image engine for the model `id`: none when the
/// id is unknown, a file is missing, or a file of its kind is not there;
/// otherwise the model arguments, flash attention and VAE tiling.
pub open spec fn build_args_spec(id: Seq<char>, files: Seq<(Seq<char>, Seq<char>, bool)>) -> Option<
    Seq<Seq<char>>,
> {
    match find_id_from(image_catalog_ids(), id, 0) {
        None => None,
        Some(k) => if !all_present(files) {
            None
        } else {
            match kind_args(image_catalog_table()[k].1, files) {
                Some(a) => Some(a + seq![ARG_DIFFUSION_FA@, ARG_VAE_TILING@]),
                None => None,
            }
        },
    }
}

fn find_role(files: &Vec<LocalFile>, role: &str) -> (r: Option<String>)
    ensures
        crate::settings::opt_view(r) == role_path(local_views(files@), role@),
{
    let ghost fs = local_views(files@);
    let key = chars_of(role);
    assert(fs.skip(0) =~= fs);
    let mut i: usize = 0;
    while i < files.len()
        invariant
            i <= files.len(),
            fs == local_views(files@),
            key@ == role@,
            role_path(fs, role@) == role_path(fs.skip(i as int), role@),
        decreases files.len() - i,
    {
        assert(fs.skip(i as int)[0] == fs[i as int]);
        assert(fs.skip(i as int).drop_first() =~= fs.skip(i + 1));
        if chars_eq(&chars_of(files[i].role.as_str()), &key) {
            return Some(files[i].path.clone());
        }
        i = i + 1;
    }
    assert(fs.skip(i as int).len() == 0);
    None
}

fn push_str(v: &mut Vec<String>, s: &str)
    ensures
        string_views(final(v)@) == string_views(old(v)@).push(s@),
{
    let ghost before = string_views(v@);
    v.push(String::from_str(s));
    assert(string_views(v@) =~= before.push(s@));
}

fn push_string(v: &mut Vec<String>, s: String)
    ensures
        string_views(final(v)@) == string_views(old(v)@).push(s@),
{
    let ghost before = string_views(v@);
    let ghost sv = s@;
    v.push(s);
    assert(string_views(v@) =~= before.push(sv));
}

/// The command-line arguments of the image engine for the model `id`,
/// whose files lie on disk as `files` say.
pub fn build_args(id: &str, files: &Vec<LocalFile>) -> (r: Option<Vec<String>>)
    ensures
        match r {
            Some(a) => build_args_spec(id@, local_views(files@)) == Some(string_views(a@)),
            None => build_args_spec(id@, local_views(files@)) is None,
        },
{
    let ghost fs = local_views(files@);
    let def = match image_def(id) {
        None => {
            return None;
        },
        Some(d) => d,
    };
    let mut i: usize = 0;
    while i < files.len()
        invariant
            i <= files.len(),
            fs == local_views(files@),
            forall|j: int| 0 <= j < i ==> #[trigger] fs[j].2,
        decreases files.len() - i,
    {
        assert(fs[i as int].2 == files@[i as int].present);
        if !files[i].present {
            return None;
        }
        i = i + 1;
    }
    let kind = chars_of(def.kind);
    let mut args: Vec<String> = Vec::new();
    if chars_eq(&kind, &chars_of("sdxl")) {
        let m = match find_role(files, "model") {
            None => {
                return None;
            },
            Some(m) => m,
        };
        push_str(&mut args, "-m");
        push_string(&mut args, m);
    } else if chars_eq(&kind, &chars_of("chroma")) {
        let d = find_role(files, "diffusion");
        let t = find_role(files, "t5xxl");
        let v = find_role(files, "vae");
        match (d, t, v) {
            (Some(d), Some(t), Some(v)) => {
                push_str(&mut args, "--diffusion-model");
                push_string(&mut args, d);
                push_str(&mut args, "--t5xxl");
                push_string(&mut args, t);
                push_str(&mut args, "--vae");
                push_string(&mut args, v);
                push_str(&mut args, "--model-args");
                push_str(&mut args, "chroma_use_dit_mask=false");
                push_str(&mut args, ARG_CLIP_ON_CPU);
            },
            _ => {
                return None;
            },
        }
    } else if chars_eq(&kind, &chars_of("kontext")) {
        let d = find_role(files, "diffusion");
        let c = find_role(files, "clip_l");
        let t = find_role(files, "t5xxl");
        let v = find_role(files, "vae");
        match (d, c, t, v) {
            (Some(d), Some(c), Some(t), Some(v)) => {
                push_str(&mut args, "--diffusion-model");
                push_string(&mut args, d);
                push_str(&mut args, "--clip_l");
                push_string(&mut args, c);
                push_str(&mut args, "--t5xxl");
                push_string(&mut args, t);
                push_str(&mut args, "--vae");
                push_string(&mut args, v);
                push_str(&mut args, ARG_CLIP_ON_CPU);
            },
            _ => {
                return None;
            },
        }
    } else {
        return None;
    }
    let ghost model_args = string_views(args@);
    push_str(&mut args, ARG_DIFFUSION_FA);
    push_str(&mut args, ARG_VAE_TILING);
    assert(string_views(args@) =~= model_args + seq![ARG_DIFFUSION_FA@, ARG_VAE_TILING@]);
    Some(args)
}


/// Why a load cannot start, in the order the checks are made: no image
/// model chosen, the model's files not all on disk, no engine program.
pub open spec fn load_error_spec(model_chosen: bool, args_found: bool, exe_found: bool) -> Option<
    Seq<char>,
> {
    if !model_chosen {
        Some(NO_MODEL@)
    } else if !args_found {
        Some(MODEL_MISSING@)
    } else if !exe_found {
        Some(ENGINE_MISSING@)
    } else {
        None
    }
}

/// The error that keeps the image engine from loading, if any.
pub fn load_error(model_chosen: bool, args_found: bool, exe_found: bool) -> (r: Option<
    &'static str,
>)
    ensures
        match r {
            Some(e) => load_error_spec(model_chosen, args_found, exe_found) == Some(e@),
            None => load_error_spec(model_chosen, args_found, exe_found) is None,
        },
{
    if !model_chosen {
        Some(NO_MODEL)
    } else if !args_found {
        Some(MODEL_MISSING)
    } else if !exe_found {
        Some(ENGINE_MISSING)
    } else {
        None
    }
}

/// The strings of a JSON array, in order, as the engine's answer lists its
/// pictures: the elements that are strings (or whose picked field is), the
/// others skipped.
pub open spec fn present_strings(items: Seq<Option<Seq<char>>>) -> Seq<Seq<char>>
    decreases items.len(),
{
    if items.len() == 0 {
        seq![]
    } else {
        let r = present_strings(items.drop_last());
        match items.last() {
            Some(s) => r.push(s),
            None => r,
        }
    }
}

/// The pictures of an answer's array; nothing when there is no array.
pub open spec fn array_strings(items: Option<Seq<Option<Seq<char>>>>) -> Seq<Seq<char>> {
    match items {
        Some(v) => present_strings(v),
        None => seq![],
    }
}

/// The pictures of an answer: `items` holds, for each element of the
/// answer's array, its string if it has one; `None` when there is no array.
pub fn image_strings(items: Option<Vec<Option<String>>>) -> (r: Vec<String>)
    ensures
        string_views(r@) == array_strings(opt_item_views(items)),
{
    let mut out: Vec<String> = Vec::new();
    match &items {
        None => {},
        Some(v) => {
            let ghost all = item_views(v@);
            let mut i: usize = 0;
            while i < v.len()
                invariant
                    i <= v.len(),
                    all == item_views(v@),
                    string_views(out@) == present_strings(all.take(i as int)),
                decreases v.len() - i,
            {
                assert(all.take(i + 1).drop_last() =~= all.take(i as int));
                assert(all.take(i + 1).last() == all[i as int]);
                let ghost before = string_views(out@);
                match &v[i] {
                    Some(s) => {
                        out.push(s.clone());
                        assert(string_views(out@) =~= before.push(s@));
                    },
                    None => {},
                }
                i = i + 1;
            }
            assert(all.take(v.len() as int) =~= all);
        },
    }
    out
}

/// The character of the standard base64 alphabet for the six bits `n`.
pub open spec fn base64_char(n: int) -> char {
    if n < 26 {
        (65 + n) as char
    } else if n < 52 {
        (97 + n - 26) as char
    } else if n < 62 {
        (48 + n - 52) as char
    } else if n == 62 {
        '+'
    } else {
        '/'
    }
}

/// The four characters of the 24 bits `n`.
pub open spec fn base64_quad(n: int) -> Seq<char> {
    seq![
        base64_char(n / 262144),
        base64_char((n / 4096) % 64),
        base64_char((n / 64) % 64),
        base64_char(n % 64),
    ]
}

/// Standard base64 with `=` padding (RFC 4648, section 4), as
/// `base64::engine::general_purpose::STANDARD.encode` writes it: every
/// three bytes become four characters; a last group of one or two bytes
/// is filled with zero bits and padded to four characters with `=`.
pub open spec fn base64_encode(bytes: Seq<u8>) -> Seq<char>
    decreases bytes.len(),
{
    if bytes.len() == 0 {
        seq![]
    } else if bytes.len() == 1 {
        base64_quad(bytes[0] * 65536).take(2) + seq!['=', '=']
    } else if bytes.len() == 2 {
        base64_quad(bytes[0] * 65536 + bytes[1] * 256).take(3) + seq!['=']
    } else {
        base64_quad(bytes[0] * 65536 + bytes[1] * 256 + bytes[2]) + base64_encode(bytes.skip(3))
    }
}

/// What `base64::engine::general_purpose::STANDARD.decode` makes of the
/// text `s`: the bytes, or the `Display` text of the error.
pub uninterp spec fn base64_decode(s: Seq<char>) -> Result<Seq<u8>, Seq<char>>;

/// `STANDARD.encode` of the `base64` crate, which panics only when the
/// length of the encoding overflows `usize`. The contract states that the
/// text is the standard padded base64 of the bytes.
#[verifier::external_body]
fn b64_encode(bytes: &[u8]) -> (r: String)
    requires
        bytes@.len() <= isize::MAX,
    ensures
        r@ == base64_encode(bytes@),
{
    base64::engine::general_purpose::STANDARD.encode(bytes)
}

/// `STANDARD.decode` of the `base64` crate on the bytes of `s`. The
/// contract names the result; of the bytes it only states that they fit in
/// a `Vec`, as every `Vec<u8>` does.
#[verifier::external_body]
fn b64_decode(s: &str) -> (r: Result<Vec<u8>, String>)
    ensures
        match r {
            Ok(b) => base64_decode(s@) == Ok::<Seq<u8>, Seq<char>>(b@) && b@.len() <= isize::MAX,
            Err(e) => base64_decode(s@) == Err::<Seq<u8>, Seq<char>>(e@),
        },
{
    match base64::engine::general_purpose::STANDARD.decode(s) {
        Ok(b) => Ok(b),
        Err(e) => Err(e.to_string()),
    }
}

/// What follows the last comma of `s` (a data URL's payload); all of `s`
/// when it has no comma.
pub open spec fn after_last_comma(s: Seq<char>) -> Seq<char> {
    match last_occurrence(s, seq![',']) {
        Some(i) => s.subrange(i + 1, s.len() as int),
        None => s,
    }
}

fn after_last_comma_chars(v: &Vec<char>) -> (r: Vec<char>)
    ensures
        r@ == after_last_comma(v@),
{
    let mut comma: Vec<char> = Vec::new();
    comma.push(',');
    assert(comma@ =~= seq![',']);
    let n = v.len();
    match rfind_chars(v, &comma) {
        Some(i) => {
            assert(occurs_at(v@, comma@, i as int));
            slice_chars(v, i + 1, n)
        },
        None => {
            assert(v@.subrange(0, n as int) =~= v@);
            slice_chars(v, 0, n)
        },
    }
}

/// The base64 payload of a picture that may come as a data URL.
pub fn base64_payload(s: &str) -> (r: String)
    ensures
        r@ == after_last_comma(s@),
{
    let v = chars_of(s);
    string_of(&after_last_comma_chars(&v))
}

pub const PNG_DATA_URL_PREFIX: &'static str = "data:image/png;base64,";

/// A PNG data URL with the bytes `bytes`.
pub open spec fn png_data_url_spec(bytes: Seq<u8>) -> Seq<char> {
    PNG_DATA_URL_PREFIX@ + base64_encode(bytes)
}

/// The bytes of a PNG picture as a data URL.
pub fn png_data_url(bytes: &[u8]) -> (r: String)
    requires
        bytes@.len() <= isize::MAX,
    ensures
        r@ == png_data_url_spec(bytes@),
{
    let mut r = String::from_str(PNG_DATA_URL_PREFIX);
    let e = b64_encode(bytes);
    r.append(e.as_str());
    r
}

pub const DECODE_PREFIX: &'static str = "decode: ";

pub const IMAGE_NAME_PREFIX: &'static str = "img-";

pub const IMAGE_NAME_SEP: &'static str = "-";

pub const IMAGE_NAME_SUFFIX: &'static str = ".png";

/// The name of the `index`-th picture saved at `millis`:
/// `img-{millis}-{index}.png`.
pub open spec fn image_name_spec(millis: u128, index: u64) -> Seq<char> {
    IMAGE_NAME_PREFIX@ + decimal(millis as nat) + IMAGE_NAME_SEP@ + decimal(index as nat)
        + IMAGE_NAME_SUFFIX@
}

/// A picture ready to be written: its file name, its bytes and its data URL.
pub struct SavedImage {
    pub name: String,
    pub bytes: Vec<u8>,
    pub data_url: String,
}

/// A picture from the engine, decoded: the payload after the last comma,
/// decoded from base64 (an error says `decode: ` and why), named by the
/// time and its index, with its data URL.
pub open spec fn prepare_image_spec(img: Seq<char>, index: u64, millis: u128) -> Result<
    (Seq<char>, Seq<u8>, Seq<char>),
    Seq<char>,
> {
    match base64_decode(after_last_comma(img)) {
        Err(e) => Err(DECODE_PREFIX@ + e),
        Ok(b) => Ok((image_name_spec(millis, index), b, png_data_url_spec(b))),
    }
}

pub open spec fn saved_view(r: Result<SavedImage, String>) -> Result<
    (Seq<char>, Seq<u8>, Seq<char>),
    Seq<char>,
> {
    match r {
        Ok(s) => Ok((s.name@, s.bytes@, s.data_url@)),
        Err(e) => Err(e@),
    }
}

/// Decodes the `index`-th picture that the engine returned at `millis`.
pub fn prepare_image(img: &str, index: u64, millis: u128) -> (r: Result<SavedImage, String>)
    ensures
        saved_view(r) == prepare_image_spec(img@, index, millis),
{
    let payload = base64_payload(img);
    match b64_decode(payload.as_str()) {
        Err(e) => {
            let mut m = String::from_str(DECODE_PREFIX);
            m.append(e.as_str());
            Err(m)
        },
        Ok(bytes) => {
            let mut name_chars = chars_of(IMAGE_NAME_PREFIX);
            extend_chars(&mut name_chars, &decimal_chars(millis));
            extend_chars(&mut name_chars, &chars_of(IMAGE_NAME_SEP));
            extend_chars(&mut name_chars, &decimal_chars(index as u128));
            extend_chars(&mut name_chars, &chars_of(IMAGE_NAME_SUFFIX));
            let name = string_of(&name_chars);
            let data_url = png_data_url(bytes.as_slice());
            Ok(SavedImage { name, bytes, data_url })
        },
    }
}

/// The pictures of an answer, or `EMPTY` when there are none.
pub fn images_or_empty(images: Vec<String>) -> (r: Result<Vec<String>, String>)
    ensures
        images@.len() == 0 ==> r is Err && r->Err_0@ == EMPTY@,
        images@.len() > 0 ==> r == Ok::<Vec<String>, String>(images),
{
    if images.len() == 0 {
        Err(String::from_str(EMPTY))
    } else {
        Ok(images)
    }
}

/// How many pictures one request makes: the count asked for, between one
/// and four.
pub fn batch_count(count: u32) -> (r: u32)
    ensures
        r == if count < 1 {
            1
        } else if count > 4 {
            4
        } else {
            count
        },
{
    if count < 1 {
        1
    } else if count > 4 {
        4
    } else {
        count
    }
}

/// The error of a request that could not be sent: `CANCELED` when the user
/// cancelled, else the engine's error.
pub fn send_error(canceled: bool, msg: &str) -> (r: String)
    ensures
        canceled ==> r@ == CANCELED@,
        !canceled ==> r@ == ENGINE_PREFIX@ + msg@,
{
    if canceled {
        String::from_str(CANCELED)
    } else {
        let mut m = String::from_str(ENGINE_PREFIX);
        m.append(msg);
        m
    }
}

/// The kind of the image model `id`, when the catalog has it.
pub fn image_kind(id: &str) -> (r: Option<&'static str>)
    ensures
        match find_id_from(image_catalog_ids(), id@, 0) {
            Some(k) => r is Some && r->0@ == image_catalog_table()[k].1,
            None => r is None,
        },
{
    match image_def(id) {
        Some(d) => Some(d.kind),
        None => None,
    }
}

/// A photo is edited by instruction (FLUX Kontext) exactly when the active
/// model is of kind `kontext` and a photo came with the request.
pub fn uses_kontext(kind: Option<&str>, has_photo: bool) -> (r: bool)
    ensures
        r == (has_photo && kind is Some && kind->0@ == "kontext"@),
{
    match kind {
        Some(k) => has_photo && chars_eq(&chars_of(k), &chars_of("kontext")),
        None => false,
    }
}

pub const TIMEOUT_TEXT: &'static str = "timeout";

/// Before each look at an editing job: the error to end with, after the
/// job has been cancelled, when the user cancelled or time is up.
pub fn job_wait_check(canceled: bool, past_deadline: bool) -> (r: Option<String>)
    ensures
        canceled ==> r is Some && r->0@ == CANCELED@,
        !canceled && past_deadline ==> r is Some && r->0@ == ENGINE_PREFIX@ + TIMEOUT_TEXT@,
        !canceled && !past_deadline ==> r is None,
{
    if canceled {
        Some(String::from_str(CANCELED))
    } else if past_deadline {
        let mut m = String::from_str(ENGINE_PREFIX);
        m.append(TIMEOUT_TEXT);
        Some(m)
    } else {
        None
    }
}

/// What a look at an editing job tells.
pub enum JobPoll {
    /// Queued or still generating: look again.
    Pending,
    /// Done: the pictures.
    Done(Vec<String>),
    /// Over without pictures: the error.
    Failed(String),
}

pub const FAILED_TEXT: &'static str = "failed";

/// The status text of a job; none counts as empty.
pub open spec fn job_status(status: Option<&str>) -> Seq<char> {
    match status {
        Some(s) => s@,
        None => Seq::<char>::empty(),
    }
}

/// The outcome of a job whose `status` is given: `completed` gives its
/// pictures (`EMPTY` when none), `failed` the engine's error (`failed`
/// when it gives none), `cancelled` is `CANCELED`, anything else waits.
pub fn job_poll(status: Option<&str>, images: Vec<String>, error: Option<&str>) -> (r: JobPoll)
    ensures
        job_status(status) == "completed"@ && images@.len() > 0 ==> r == JobPoll::Done(images),
        job_status(status) == "completed"@ && images@.len() == 0 ==> r is Failed
            && r->Failed_0@ == EMPTY@,
        job_status(status) == "failed"@ ==> r is Failed && r->Failed_0@ == ENGINE_PREFIX@ + match error {
            Some(e) => e@,
            None => FAILED_TEXT@,
        },
        job_status(status) == "cancelled"@ ==> r is Failed && r->Failed_0@ == CANCELED@,
        job_status(status) != "completed"@ && job_status(status) != "failed"@ && job_status(status)
            != "cancelled"@ ==> r is Pending,
{
    let st = match status {
        Some(s) => chars_of(s),
        None => Vec::new(),
    };
    proof {
        reveal_strlit("completed");
        reveal_strlit("failed");
        reveal_strlit("cancelled");
        assert("completed"@.len() == 9);
        assert("failed"@.len() == 6);
        assert("cancelled"@.len() == 9);
        assert("cancelled"@[1] != "completed"@[1]);
    }
    if chars_eq(&st, &chars_of("completed")) {
        if images.len() == 0 {
            JobPoll::Failed(String::from_str(EMPTY))
        } else {
            JobPoll::Done(images)
        }
    } else if chars_eq(&st, &chars_of("failed")) {
        let mut m = String::from_str(ENGINE_PREFIX);
        match error {
            Some(e) => m.append(e),
            None => m.append(FAILED_TEXT),
        }
        JobPoll::Failed(m)
    } else if chars_eq(&st, &chars_of("cancelled")) {
        JobPoll::Failed(String::from_str(CANCELED))
    } else {
        JobPoll::Pending
    }
}

/// The fields of the image engine's answers that the library reads.
pub const IMAGES_KEY: &'static str = "images";

pub const ID_KEY: &'static str = "id";

pub const STATUS_KEY: &'static str = "status";

pub const ERROR_KEY: &'static str = "error";

pub const RESULT_KEY: &'static str = "result";

pub const B64_JSON_KEY: &'static str = "b64_json";

/// The pictures of an A1111 answer `body`: an answer that is not JSON is
/// an engine error, and no string under `images` is `EMPTY`.
pub open spec fn sdapi_outcome_spec(body: Seq<u8>) -> Result<Seq<Seq<char>>, Seq<char>> {
    match json_bytes_items(body, IMAGES_KEY@) {
        None => Err(decode_error()),
        Some(items) => {
            let imgs = array_strings(items);
            if imgs.len() == 0 {
                Err(EMPTY@)
            } else {
                Ok(imgs)
            }
        },
    }
}

/// The pictures in the A1111 engine's answer `body`.
pub fn sdapi_outcome(body: &[u8]) -> (r: Result<Vec<String>, String>)
    ensures
        list_result_view(r) == sdapi_outcome_spec(body@),
{
    match json_bytes_items_at(body, IMAGES_KEY) {
        None => {
            let mut m = String::from_str(ENGINE_PREFIX);
            m.append(DECODE_ERROR);
            Err(m)
        },
        Some(items) => {
            let imgs = image_strings(items);
            images_or_empty(imgs)
        },
    }
}

/// The error of a submitted job whose answer names no job.
pub open spec fn no_job_id_error() -> Seq<char> {
    ENGINE_PREFIX@ + NO_JOB_ID@
}

/// The job id in the answer `body` to a submitted Kontext job: an answer
/// that is not JSON is an engine error, and so is one without a string
/// `id`.
pub open spec fn kontext_job_id_spec(body: Seq<u8>) -> Result<Seq<char>, Seq<char>> {
    match json_bytes_key_str(body, ID_KEY@) {
        None => Err(decode_error()),
        Some(None) => Err(no_job_id_error()),
        Some(Some(id)) => Ok(id),
    }
}

/// The id of the job that the engine's answer `body` announces.
pub fn kontext_job_id(body: &[u8]) -> (r: Result<String, String>)
    ensures
        text_result_view(r) == kontext_job_id_spec(body@),
{
    match json_bytes_key_str_at(body, ID_KEY) {
        None => {
            let mut m = String::from_str(ENGINE_PREFIX);
            m.append(DECODE_ERROR);
            Err(m)
        },
        Some(None) => {
            let mut m = String::from_str(ENGINE_PREFIX);
            m.append(NO_JOB_ID);
            Err(m)
        },
        Some(Some(id)) => Ok(id),
    }
}

/// What a job poll comes to: `Ok(None)` to wait, `Ok(Some(pictures))`, or
/// `Err` with the error.
pub open spec fn job_outcome(status: Seq<char>, images: Seq<Seq<char>>, error: Option<Seq<char>>) -> Result<
    Option<Seq<Seq<char>>>,
    Seq<char>,
> {
    if status == "completed"@ {
        if images.len() > 0 {
            Ok(Some(images))
        } else {
            Err(EMPTY@)
        }
    } else if status == "failed"@ {
        Err(
            ENGINE_PREFIX@ + match error {
                Some(e) => e,
                None => FAILED_TEXT@,
            },
        )
    } else if status == "cancelled"@ {
        Err(CANCELED@)
    } else {
        Ok(None)
    }
}

pub open spec fn job_poll_view(p: JobPoll) -> Result<Option<Seq<Seq<char>>>, Seq<char>> {
    match p {
        JobPoll::Pending => Ok(None),
        JobPoll::Done(v) => Ok(Some(string_views(v@))),
        JobPoll::Failed(e) => Err(e@),
    }
}

/// A field's text, none when it is no string.
pub open spec fn flat_text(o: Option<Option<Seq<char>>>) -> Option<Seq<char>> {
    match o {
        Some(Some(t)) => Some(t),
        _ => None,
    }
}

/// The pictures under `result.images[*].b64_json` of a poll answer.
pub open spec fn kontext_images(body: Seq<u8>) -> Seq<Seq<char>> {
    match json_bytes_field_items(body, RESULT_KEY@, IMAGES_KEY@, B64_JSON_KEY@) {
        Some(items) => array_strings(items),
        None => seq![],
    }
}

/// What a poll answer `body` of a Kontext job says, read by `status`,
/// `result.images[*].b64_json` and `error`.
pub open spec fn kontext_poll_spec(body: Seq<u8>) -> Result<Option<Seq<Seq<char>>>, Seq<char>> {
    job_outcome(
        match flat_text(json_bytes_key_str(body, STATUS_KEY@)) {
            Some(t) => t,
            None => seq![],
        },
        kontext_images(body),
        flat_text(json_bytes_key_str(body, ERROR_KEY@)),
    )
}

/// The state of a Kontext job from a poll answer `body`: `None`, to poll
/// again, exactly when the answer is not JSON.
pub fn kontext_poll_outcome(body: &[u8]) -> (r: Option<JobPoll>)
    ensures
        r is None <==> !json_bytes_parse(body@),
        r matches Some(p) ==> job_poll_view(p) == kontext_poll_spec(body@),
{
    let status = json_bytes_key_str_at(body, STATUS_KEY);
    match status {
        None => None,
        Some(st) => {
            let images = match json_bytes_field_items_at(body, RESULT_KEY, IMAGES_KEY, B64_JSON_KEY) {
                Some(items) => image_strings(items),
                None => Vec::new(),
            };
            let error = match json_bytes_key_str_at(body, ERROR_KEY) {
                Some(Some(e)) => Some(e),
                _ => None,
            };
            let st_ref: Option<&str> = match &st {
                Some(t) => Some(t.as_str()),
                None => None,
            };
            let err_ref: Option<&str> = match &error {
                Some(e) => Some(e.as_str()),
                None => None,
            };
            let ghost imgs = string_views(images@);
            let p = job_poll(st_ref, images, err_ref);
            proof {
                reveal_strlit("completed");
                reveal_strlit("failed");
                reveal_strlit("cancelled");
            }
            assert(job_poll_view(p) == job_outcome(job_status(st_ref), imgs, match err_ref {
                Some(e) => Some(e@),
                None => None,
            }));
            Some(p)
        },
    }
}

pub const ENDPOINT_IMG2IMG: &'static str = "img2img";

pub const ENDPOINT_TXT2IMG: &'static str = "txt2img";

/// The A1111 endpoint: drawing over a photo, or from text alone.
pub fn sdapi_endpoint(has_photo: bool) -> (r: &'static str)
    ensures
        has_photo ==> r@ == ENDPOINT_IMG2IMG@,
        !has_photo ==> r@ == ENDPOINT_TXT2IMG@,
{
    if has_photo {
        ENDPOINT_IMG2IMG
    } else {
        ENDPOINT_TXT2IMG
    }
}


#[verifier::external_type_specification]
#[verifier::external_body]
pub struct ExSystemTime(std::time::SystemTime);

/// `SystemTime::now`: the clock, of which nothing is stated.
pub assume_specification[ std::time::SystemTime::now ]() -> std::time::SystemTime;

/// `SystemTime::duration_since(UNIX_EPOCH)`, as whole seconds and as
/// milliseconds; `None` for a time before the epoch. Nothing is stated of
/// the values but that the milliseconds fall within the seconds.
#[verifier::external_body]
fn since_epoch(t: &std::time::SystemTime) -> (r: Option<(u64, u128)>)
    ensures
        r matches Some(p) ==> p.1 / 1000 == p.0,
{
    match t.duration_since(std::time::UNIX_EPOCH) {
        Ok(d) => Some((d.as_secs(), d.as_millis())),
        Err(_) => None,
    }
}

/// Seconds since the epoch, 0 when the clock is before it.
pub fn now_secs() -> u64 {
    let t = std::time::SystemTime::now();
    match since_epoch(&t) {
        Some(p) => p.0,
        None => 0,
    }
}

/// Milliseconds since the epoch, 0 when the clock is before it.
pub fn now_millis() -> u128 {
    let t = std::time::SystemTime::now();
    match since_epoch(&t) {
        Some(p) => p.1,
        None => 0,
    }
}

} // verus!
