use otvetka::errors::{CANCELED, EMPTY};
use otvetka::image::{
    generation_end_actions, generation_start_actions,
    base64_payload, batch_count, build_args, image_kind, image_mode_actions, job_poll,
    job_wait_check, kontext_job_id, kontext_poll_outcome, load_error, sdapi_outcome, image_strings, now_millis, now_secs, png_data_url, prepare_image, sdapi_endpoint, send_error, uses_kontext,
    ImageEngine, JobPoll, LocalFile, Status as ImageStatus, IDLE_UNLOAD_SECS,
};
use otvetka::llama::{ensure_ready, server_args, LlamaEngine, LoadStep, Status};

#[test]
fn status_strings() {
    assert_eq!(Status::Stopped.status_string(), "stopped");
    assert_eq!(Status::Loading.status_string(), "loading");
    assert_eq!(Status::Ready.status_string(), "ready");
    assert_eq!(Status::Error("model_missing".into()).status_string(), "error:model_missing");
    assert_eq!(ImageStatus::Error("x".into()).status_string(), "error:x");
}

#[test]
fn ensure_ready_errors() {
    assert_eq!(ensure_ready(&Status::Ready, 8080), Ok(8080));
    assert_eq!(ensure_ready(&Status::Loading, 1), Err("LOADING".to_string()));
    assert_eq!(ensure_ready(&Status::Stopped, 1), Err("NO_MODEL".to_string()));
    assert_eq!(ensure_ready(&Status::Error("boom".into()), 1), Err("ENGINE:boom".to_string()));
}

#[test]
fn llama_engine_loading_and_superseded_loader() {
    let mut e = LlamaEngine::new();
    e.kill();
    let my_gen = e.started(4242);
    assert_eq!(e.status, Status::Loading);
    assert_eq!(e.check_alive(my_gen, None), LoadStep::Wait);
    assert_eq!(e.health_checked(my_gen, false), LoadStep::Wait);
    // a restart overtakes the loader
    e.kill();
    assert_eq!(e.check_alive(my_gen, Some("exit code: 1".into())), LoadStep::Superseded);
    assert_eq!(e.health_checked(my_gen, true), LoadStep::Superseded);
    assert_eq!(e.status, Status::Stopped);
    let g2 = e.started(4243);
    assert_eq!(e.health_checked(g2, true), LoadStep::Ready);
    assert_eq!(e.status, Status::Ready);
    assert_eq!(e.status_string(), "ready");
}

#[test]
fn llama_engine_exit_and_timeout() {
    let mut e = LlamaEngine::new();
    let g = e.started(1);
    assert_eq!(e.check_alive(g, Some("exit code: 3".into())), LoadStep::Exited);
    assert_eq!(e.status, Status::Error("exited: exit code: 3".into()));
    e.timed_out();
    assert_eq!(e.status, Status::Error("load_timeout".into()));
    e.set_error("engine_missing");
    assert_eq!(e.status_string(), "error:engine_missing");
}

#[test]
fn server_args_list() {
    let a = server_args("C:/m/model.gguf", 18723);
    assert_eq!(
        a,
        vec![
            "-m", "C:/m/model.gguf", "--host", "127.0.0.1", "--port", "18723", "-c", "4096",
            "-ngl", "99", "--jinja", "--no-webui"
        ]
    );
    assert_eq!(server_args("m", 0)[5], "0");
}

fn files(list: &[(&str, &str, bool)]) -> Vec<LocalFile> {
    list.iter()
        .map(|(r, p, e)| LocalFile { role: r.to_string(), path: p.to_string(), present: *e })
        .collect()
}

#[test]
fn build_args_by_kind() {
    let sdxl = build_args("sdxl", &files(&[("model", "/d/sdxl.safetensors", true)])).unwrap();
    assert_eq!(sdxl, vec!["-m", "/d/sdxl.safetensors", "--diffusion-fa", "--vae-tiling"]);
    let chroma = build_args(
        "chroma",
        &files(&[("diffusion", "/d/c.gguf", true), ("t5xxl", "/d/t5.gguf", true), ("vae", "/d/ae", true)]),
    )
    .unwrap();
    assert_eq!(
        chroma,
        vec![
            "--diffusion-model", "/d/c.gguf", "--t5xxl", "/d/t5.gguf", "--vae", "/d/ae",
            "--model-args", "chroma_use_dit_mask=false", "--clip-on-cpu", "--diffusion-fa",
            "--vae-tiling"
        ]
    );
    let kontext = build_args(
        "kontext",
        &files(&[
            ("diffusion", "d", true),
            ("clip_l", "c", true),
            ("t5xxl", "t", true),
            ("vae", "v", true),
        ]),
    )
    .unwrap();
    assert_eq!(
        kontext,
        vec![
            "--diffusion-model", "d", "--clip_l", "c", "--t5xxl", "t", "--vae", "v",
            "--clip-on-cpu", "--diffusion-fa", "--vae-tiling"
        ]
    );
}

#[test]
fn build_args_refuses_missing_or_unknown() {
    assert!(build_args("sdxl", &files(&[("model", "/x", false)])).is_none());
    assert!(build_args("nope", &files(&[("model", "/x", true)])).is_none());
    assert!(build_args("chroma", &files(&[("diffusion", "d", true), ("vae", "v", true)])).is_none());
}

#[test]
fn image_engine_fast_path_and_idle_unload() {
    let mut e = ImageEngine::new();
    assert_eq!(e.ready_port(5), None);
    e.begin_load();
    let g = e.started(9000);
    assert_eq!(e.check_alive(g, None), LoadStep::Wait);
    assert_eq!(e.health_checked(g, true, 100), LoadStep::Ready);
    assert_eq!(e.ready_port(110), Some(9000));
    assert_eq!(e.last_used, 110);
    assert_eq!(IDLE_UNLOAD_SECS, 600);
    assert!(!e.should_unload(110 + 599));
    assert!(e.should_unload(110 + 600));
    assert!(!e.should_unload(50));
    e.begin_work(300);
    assert!(!e.should_unload(10_000));
    e.end_work(400);
    assert!(!e.should_unload(999));
    assert!(e.should_unload(1000));
    e.kill();
    assert!(!e.loaded && !e.busy && e.status == ImageStatus::Stopped);
    assert!(!e.should_unload(10_000));
}

#[test]
fn image_engine_stale_loader_is_canceled() {
    let mut e = ImageEngine::new();
    e.begin_load();
    let g = e.started(1);
    e.kill();
    assert_eq!(e.health_checked(g, true, 5), LoadStep::Superseded);
    assert_eq!(e.status, ImageStatus::Stopped);
}

#[test]
fn mode_actions() {
    let on = image_mode_actions(true, false);
    assert!(on.unload_text && !on.unload_image && !on.restart_text);
    let off = image_mode_actions(false, false);
    assert!(!off.unload_text && off.unload_image && off.restart_text);
    let busy = image_mode_actions(false, true);
    assert!(!busy.unload_text && !busy.unload_image && !busy.restart_text);
}

#[test]
fn pictures_are_decoded_named_and_wrapped() {
    let saved = prepare_image("data:image/png;base64,aGVsbG8=", 2, 1700000000123).unwrap();
    assert_eq!(saved.bytes, b"hello".to_vec());
    assert_eq!(saved.name, "img-1700000000123-2.png");
    assert_eq!(saved.data_url, "data:image/png;base64,aGVsbG8=");
    let bad = prepare_image("!!!", 0, 1).err().unwrap();
    assert!(bad.starts_with("decode: "));
    assert_eq!(base64_payload("a,b,c"), "c");
    assert_eq!(base64_payload("abc"), "abc");
    assert_eq!(png_data_url(&[0xff, 0x00]), "data:image/png;base64,/wA=");
    assert_eq!(png_data_url(b"Man"), "data:image/png;base64,TWFu");
    assert_eq!(png_data_url(b"M"), "data:image/png;base64,TQ==");
    assert_eq!(png_data_url(&[0xfb, 0xff]), "data:image/png;base64,+/8=");
}

#[test]
fn job_outcomes() {
    match job_poll(Some("completed"), vec!["x".into()], None) {
        JobPoll::Done(v) => assert_eq!(v, vec!["x"]),
        _ => panic!("expected pictures"),
    }
    match job_poll(Some("completed"), vec![], None) {
        JobPoll::Failed(e) => assert_eq!(e, EMPTY),
        _ => panic!("expected EMPTY"),
    }
    match job_poll(Some("failed"), vec![], Some("oom")) {
        JobPoll::Failed(e) => assert_eq!(e, "ENGINE:oom"),
        _ => panic!("expected failure"),
    }
    match job_poll(Some("failed"), vec![], None) {
        JobPoll::Failed(e) => assert_eq!(e, "ENGINE:failed"),
        _ => panic!("expected failure"),
    }
    match job_poll(Some("cancelled"), vec![], None) {
        JobPoll::Failed(e) => assert_eq!(e, CANCELED),
        _ => panic!("expected CANCELED"),
    }
    assert!(matches!(job_poll(Some("generating"), vec![], None), JobPoll::Pending));
    assert!(matches!(job_poll(None, vec![], None), JobPoll::Pending));
    assert_eq!(job_wait_check(true, true), Some("CANCELED".to_string()));
    assert_eq!(job_wait_check(false, true), Some("ENGINE:timeout".to_string()));
    assert_eq!(job_wait_check(false, false), None);
}

#[test]
fn request_helpers() {
    assert_eq!(batch_count(0), 1);
    assert_eq!(batch_count(3), 3);
    assert_eq!(batch_count(9), 4);
    assert_eq!(send_error(true, "x"), "CANCELED");
    assert_eq!(send_error(false, "x"), "ENGINE:x");
    assert_eq!(sdapi_endpoint(true), "img2img");
    assert_eq!(sdapi_endpoint(false), "txt2img");
    assert_eq!(image_kind("kontext"), Some("kontext"));
    assert_eq!(image_kind("sdxl"), Some("sdxl"));
    assert_eq!(image_kind("zzz"), None);
    assert!(uses_kontext(Some("kontext"), true));
    assert!(!uses_kontext(Some("kontext"), false));
    assert!(!uses_kontext(Some("chroma"), true));
    assert!(!uses_kontext(None, true));
}

#[test]
fn the_clock_reads_after_the_epoch() {
    let s = now_secs();
    let ms = now_millis();
    assert!(s > 1_600_000_000);
    assert!(ms / 1000 >= s as u128);
}

#[test]
fn load_errors_in_order() {
    assert_eq!(load_error(false, false, false), Some("NO_MODEL"));
    assert_eq!(load_error(true, false, true), Some("model_missing"));
    assert_eq!(load_error(true, true, false), Some("engine_missing"));
    assert_eq!(load_error(true, true, true), None);
}

#[test]
fn picture_strings_skip_what_is_not_text() {
    let items = vec![Some("a".to_string()), None, Some("b".to_string())];
    assert_eq!(image_strings(Some(items)), vec!["a", "b"]);
    assert!(image_strings(None).is_empty());
    assert!(image_strings(Some(vec![None])).is_empty());
}

#[test]
fn sdapi_answers() {
    assert_eq!(sdapi_outcome(br#"{"images":["a",1,"b"]}"#).unwrap(), vec!["a", "b"]);
    assert_eq!(sdapi_outcome(br#"{"images":[]}"#).unwrap_err(), "EMPTY");
    assert_eq!(sdapi_outcome(br#"{"images":"a"}"#).unwrap_err(), "EMPTY");
    assert_eq!(sdapi_outcome(br#"{}"#).unwrap_err(), "EMPTY");
    assert_eq!(sdapi_outcome(b"<html>").unwrap_err(), "ENGINE:error decoding response body");
}

#[test]
fn kontext_answers() {
    assert_eq!(kontext_job_id(br#"{"id":"j7"}"#).unwrap(), "j7");
    assert_eq!(kontext_job_id(br#"{"id":7}"#).unwrap_err(), "ENGINE:no job id");
    assert_eq!(kontext_job_id(b"oops").unwrap_err(), "ENGINE:error decoding response body");
    assert!(kontext_poll_outcome(b"oops").is_none());
    assert!(matches!(kontext_poll_outcome(br#"{"status":"generating"}"#), Some(JobPoll::Pending)));
    assert!(matches!(kontext_poll_outcome(br#"{}"#), Some(JobPoll::Pending)));
    match kontext_poll_outcome(
        br#"{"status":"completed","result":{"images":[{"b64_json":"x"},{"url":"u"},{"b64_json":"y"}]}}"#,
    ) {
        Some(JobPoll::Done(v)) => assert_eq!(v, vec!["x", "y"]),
        _ => panic!("expected pictures"),
    }
    match kontext_poll_outcome(br#"{"status":"completed","result":{"images":[]}}"#) {
        Some(JobPoll::Failed(e)) => assert_eq!(e, "EMPTY"),
        _ => panic!("expected EMPTY"),
    }
    match kontext_poll_outcome(br#"{"status":"failed","error":"oom"}"#) {
        Some(JobPoll::Failed(e)) => assert_eq!(e, "ENGINE:oom"),
        _ => panic!("expected the error"),
    }
    match kontext_poll_outcome(br#"{"status":"failed"}"#) {
        Some(JobPoll::Failed(e)) => assert_eq!(e, "ENGINE:failed"),
        _ => panic!("expected failed"),
    }
    match kontext_poll_outcome(br#"{"status":"cancelled"}"#) {
        Some(JobPoll::Failed(e)) => assert_eq!(e, "CANCELED"),
        _ => panic!("expected CANCELED"),
    }
}

#[test]
fn picture_requests_unload_and_bring_back_the_text_model() {
    let start = generation_start_actions();
    assert!(start.unload_text && !start.unload_image && !start.restart_text);
    let closed = generation_end_actions(false);
    assert!(closed.unload_image && closed.restart_text && !closed.unload_text);
    let open = generation_end_actions(true);
    assert!(!open.unload_image && !open.restart_text);
    assert!(image_mode_actions(false, false).restart_text);
}

#[test]
fn text_engine_start_checks() {
    let mut e = LlamaEngine::new();
    assert_eq!(e.prepare_start(false, false, false), Some("NO_MODEL"));
    assert_eq!(e.status, Status::Stopped);
    assert_eq!(e.prepare_start(true, false, true), Some("model_missing"));
    assert_eq!(e.status, Status::Error("model_missing".into()));
    assert_eq!(e.prepare_start(true, true, false), Some("engine_missing"));
    assert_eq!(e.status, Status::Error("engine_missing".into()));
    let mut f = LlamaEngine::new();
    assert_eq!(f.prepare_start(true, true, true), None);
    assert_eq!(f.status, Status::Stopped);
}
