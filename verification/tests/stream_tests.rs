use otvetka::chat::{chat_messages, ChatMsg, CHAT_SYSTEM};
use otvetka::hotkey::{send_ctrl_c, KeyStep, VK_C, VK_CONTROL, VK_SHIFT};
use otvetka::settings::{settings_changes, strip_bom, Settings};
use otvetka::stream::{chat_tokens, variant_token, SseStream, TokenKind};

#[test]
fn stream_lines_across_chunks() {
    let mut s = SseStream::new(7);
    let a = s.feed(7, b"data: {\"choices\":[{\"delta\":{\"content\":\"\xd0\x9f\xd1\x80").unwrap();
    assert!(a.is_empty());
    let b = s.feed(7, "и\"}}]}\n\ndata: [DONE]\n: comment\nda".as_bytes()).unwrap();
    assert_eq!(b.len(), 1);
    assert_eq!(variant_token(&b[0]), Some("При".to_string()));
    let c = s.feed(7, b"ta:  x \n").unwrap();
    assert_eq!(c, vec!["x"]);
    assert!(s.feed(8, b"data: y\n").is_none());
    assert_eq!(s.pending.len(), 0);
}

#[test]
fn split_points_do_not_matter() {
    let text = "data: a\r\ndata:b\n\ndata: [DONE]\ndata: c";
    let mut whole = SseStream::new(1);
    let all = whole.feed_text(text);
    for cut in 0..=text.len() {
        if !text.is_char_boundary(cut) {
            continue;
        }
        let mut s = SseStream::new(1);
        let mut got = s.feed_text(&text[..cut]);
        got.extend(s.feed_text(&text[cut..]));
        assert_eq!(got, all);
        assert_eq!(s.pending, whole.pending);
    }
    assert_eq!(all, vec!["a", "b"]);
}

#[test]
fn chat_tokens_reasoning_then_content() {
    let t = chat_tokens(r#"{"choices":[{"delta":{"reasoning_content":"hm","content":"ok"}}]}"#);
    assert_eq!(t.len(), 2);
    assert_eq!(t[0].kind, TokenKind::Reasoning);
    assert_eq!(t[0].text, "hm");
    assert_eq!(t[1].kind, TokenKind::Content);
    assert_eq!(t[1].text, "ok");
    assert!(chat_tokens(r#"{"choices":[{"delta":{"content":""}}]}"#).is_empty());
    assert!(chat_tokens("{not json").is_empty());
    assert_eq!(variant_token(r#"{"choices":[{"delta":{"role":"assistant"}}]}"#), None);
}

#[test]
fn chat_messages_start_with_the_instruction() {
    let m = vec![ChatMsg { role: "user".into(), content: "привет".into() }];
    let r = chat_messages(&m);
    assert_eq!(r.len(), 2);
    assert_eq!(r[0].role, "system");
    assert_eq!(r[0].content, CHAT_SYSTEM);
    assert_eq!(r[1].role, "user");
    assert_eq!(r[1].content, "привет");
}

#[test]
fn ctrl_c_keystrokes() {
    let k = send_ctrl_c();
    assert_eq!(k.len(), 11);
    assert_eq!(k[0], KeyStep::Release(VK_SHIFT));
    assert_eq!(k[6], KeyStep::Press(VK_CONTROL));
    assert_eq!(k[7], KeyStep::Press(VK_C));
    assert_eq!(k[10], KeyStep::Release(VK_CONTROL));
}

#[test]
fn default_settings() {
    let s = Settings::default();
    assert_eq!(s.hotkey, "Ctrl+Shift+R");
    assert_eq!(s.ui_lang, "ru");
    assert_eq!(s.theme, "system");
    assert_eq!(s.active_style, "friendly");
    assert!(s.auto_copy && !s.autostart && !s.reply_short);
    assert!(s.model_file.is_none() && s.image_model.is_none());
}

#[test]
fn bom_and_changes() {
    assert_eq!(strip_bom("\u{feff}\u{feff}{\"a\":1}"), "{\"a\":1}");
    assert_eq!(strip_bom("{}"), "{}");
    let old = Settings::default();
    let mut new = Settings::default();
    new.hotkey = "ctrl+shift+r".into();
    let c = settings_changes(&old, &new);
    assert!(!c.hotkey && !c.autostart && !c.model_file);
    new.hotkey = "Ctrl+Alt+R".into();
    new.autostart = true;
    new.model_file = Some("a.gguf".into());
    let c = settings_changes(&old, &new);
    assert!(c.hotkey && c.autostart && c.model_file);
}
