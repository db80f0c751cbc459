use otvetka::prompt::{
    build_system, builtin_styles, system_prompt, NO_THINK, PROMPT_FORMAT, SHORT_RULE, PROMPT_FORMAL, PROMPT_FRIENDLY,
};
use otvetka::reply::{
    clean, parse_variants, prompt_outcome, strip_think, variants_from_reply, variants_outcome,
};
use otvetka::settings::{Settings, Style};

fn template_prompt(style: &str, user_name: &str, aliases: &[String], short: bool, examples: &str) -> String {
    let short_rule = if short {
        "- ОТВЕЧАЙ ОЧЕНЬ КОРОТКО: каждый вариант — одна короткая фраза в несколько слов, как быстрый ответ на бегу.\n"
    } else {
        ""
    };
    let examples = examples.trim();
    let example_rule = if examples.is_empty() {
        String::new()
    } else {
        format!(
            "Вот примеры того, как обычно пишет сам пользователь — перенимай его манеру, длину фраз, лексику и пунктуацию, но НЕ копируй эти примеры дословно:\n<<<\n{examples}\n>>>\n"
        )
    };
    let mut identity = String::new();
    let name = user_name.trim();
    if !name.is_empty() {
        identity.push_str(&format!(
            "Пользователя, от чьего лица ты пишешь ответ, зовут «{name}»."
        ));
        let al: Vec<&str> = aliases
            .iter()
            .map(|s| s.trim())
            .filter(|s| !s.is_empty())
            .collect();
        if !al.is_empty() {
            identity.push_str(&format!(
                " В разных чатах он также может быть подписан как: {}.",
                al.join(", ")
            ));
        }
        identity.push_str(
            " Если в скопированном тексте есть строки от этих имён — это прошлые реплики самого пользователя (контекст), отвечать на них не нужно; отвечать нужно собеседнику.\n",
        );
    }
    format!(
        "Ты подбираешь варианты ответа в переписке от лица пользователя — обычного живого человека, а не ассистента.\n\
         Тебе дают одно сообщение, несколько сообщений подряд или кусок диалога (метки времени и имена в ответ не включай).\n\
         {identity}\
         {example_rule}\
         Стиль ответа: {style}.\n\
         Как писать:\n\
         - Так, как реальные люди пишут в мессенджерах: просто, разговорно, живыми словами.\n\
         - КАТЕГОРИЧЕСКИ нельзя звучать как ИИ: никаких «Конечно!», «Отличный вопрос», «Надеюсь, это поможет», «Понимаю тебя», никакого канцелярита, вежливых шаблонов и идеально гладких фраз.\n\
         - Не пересказывай сообщения собеседника и не отвечай «по пунктам» как робот.\n\
         - Уместны разговорные слова («ну», «слушай», «блин», «окей»), лёгкая небрежность, недлинные фразы.\n\
         - Если сообщений от собеседника несколько — каждый вариант должен ОДНИМ цельным ответом закрыть все важные моменты сразу, как сделал бы человек.\n\
         - Отвечай на том же языке, на котором пишет собеседник.\n\
         - Смайлики — только если очень уместны, и не больше одного.\n\
         {short_rule}\
         Выдай ровно 3 РАЗНЫХ варианта, без пояснений, заголовков и кавычек, строго в формате:\n\
         1. первый вариант\n\
         2. второй вариант\n\
         3. третий вариант"
    )
}

#[test]
fn system_prompt_plain_matches_the_template() {
    let aliases: Vec<String> = vec![];
    let got = system_prompt("коротко", "", &aliases, false, "");
    assert_eq!(got, template_prompt("коротко", "", &aliases, false, ""));
    assert!(!got.contains("зовут"));
    assert!(!got.contains("<<<"));
}

#[test]
fn system_prompt_with_identity_examples_and_short_rule() {
    let aliases: Vec<String> = vec!["  Ваня ".to_string(), "   ".to_string(), "ivan_k".to_string()];
    let got = system_prompt("тепло", "  Иван ", &aliases, true, "  ну ок\nдавай ");
    let want = template_prompt("тепло", "  Иван ", &aliases, true, "  ну ок\nдавай ");
    assert_eq!(got, want);
    assert!(got.contains("зовут «Иван»."));
    assert!(got.contains("подписан как: Ваня, ivan_k."));
    assert!(got.contains("<<<\nну ок\nдавай\n>>>\n"));
    assert!(got.contains("ОТВЕЧАЙ ОЧЕНЬ КОРОТКО"));
}

#[test]
fn system_prompt_name_without_aliases() {
    let aliases: Vec<String> = vec![" ".to_string()];
    let got = system_prompt("x", "Аня", &aliases, false, "");
    assert_eq!(got, template_prompt("x", "Аня", &aliases, false, ""));
    assert!(!got.contains("подписан как"));
}

#[test]
fn builtin_styles_are_the_six_presets() {
    let b = builtin_styles();
    let ids: Vec<&str> = b.iter().map(|p| p.id.as_str()).collect();
    assert_eq!(ids, vec!["friendly", "formal", "humor", "brief", "flirty", "decline"]);
    assert_eq!(b[1].prompt, PROMPT_FORMAL);
}

#[test]
fn build_system_chooses_style_and_thinking_switch() {
    let mut s = Settings::default();
    s.custom_styles.push(Style { id: "mine".into(), name: "Мой".into(), prompt: "как пират".into() });
    let formal = build_system(&s, "formal");
    assert!(formal.contains(&format!("Стиль ответа: {}.\n", PROMPT_FORMAL)));
    let mine = build_system(&s, "mine");
    assert!(mine.contains("Стиль ответа: как пират.\n"));
    let unknown = build_system(&s, "nope");
    assert!(unknown.contains(&format!("Стиль ответа: {}.\n", PROMPT_FRIENDLY)));
    assert!(!unknown.ends_with(NO_THINK));
    s.model_file = Some("Qwen3-8B-Q4_K_M.gguf".into());
    assert!(build_system(&s, "formal").ends_with("\n/no_think"));
    s.model_file = Some("Qwen3-4B-Instruct-2507-Q4_K_M.gguf".into());
    assert!(!build_system(&s, "formal").ends_with("\n/no_think"));
}

#[test]
fn strip_think_keeps_what_follows_the_last_tag() {
    assert_eq!(strip_think("a</think>b</think>  \n ответ"), "ответ");
    assert_eq!(strip_think("без тега"), "без тега");
    assert_eq!(strip_think("x</think>"), "");
}

#[test]
fn clean_removes_whitespace_and_quotes() {
    assert_eq!(clean("  «Привет» "), "Привет");
    assert_eq!(clean("\"`ok`\""), "ok");
    assert_eq!(clean("' \"a'"), "\"a");
    assert_eq!(clean(" “да”  "), "да");
}

#[test]
fn parse_variants_numbered() {
    let v = parse_variants("1. Привет\n2) Hi there\n3. Ok\n4. лишний");
    assert_eq!(v, vec!["Привет", "Hi there", "Ok"]);
}

#[test]
fn parse_variants_joins_continuation_lines_and_strips_reasoning() {
    let v = parse_variants("<think>думаю</think>\n\nВот:\n1. «Да»\n   продолжение\n\n2. Нет\r\n");
    assert_eq!(v, vec!["Да» продолжение", "Нет"]);
}

#[test]
fn parse_variants_without_numbers_takes_lines() {
    let v = parse_variants("первый\n\n  «второй» \nтретий\nчетвёртый");
    assert_eq!(v, vec!["первый", "второй", "третий"]);
    assert!(parse_variants("").is_empty());
    assert!(parse_variants(" \n\t\n").is_empty());
}

#[test]
fn parse_variants_keeps_an_item_that_cleans_to_nothing() {
    assert_eq!(parse_variants("1. \"\"\n2.   \n3. b"), vec!["", "b"]);
}

#[test]
fn variants_outcome_reads_the_completion() {
    let body = r#"{"choices":[{"message":{"content":"1. один\n2. два"}}]}"#;
    assert_eq!(variants_outcome(body.as_bytes()).unwrap(), vec!["один", "два"]);
    let empty = r#"{"choices":[{"message":{"content":"   "}}]}"#;
    assert_eq!(variants_outcome(empty.as_bytes()).unwrap_err(), "EMPTY");
    let missing = r#"{"choices":[]}"#;
    assert_eq!(variants_outcome(missing.as_bytes()).unwrap_err(), "EMPTY");
    let keyed = r#"{"choices":{"0":{"message":{"content":"1. a"}}}}"#;
    assert_eq!(variants_outcome(keyed.as_bytes()).unwrap_err(), "EMPTY");
    assert_eq!(
        variants_outcome(b"not json").unwrap_err(),
        "ENGINE:error decoding response body"
    );
    assert_eq!(variants_from_reply(None).unwrap_err(), "ENGINE:error decoding response body");
    assert_eq!(variants_from_reply(Some(None)).unwrap_err(), "EMPTY");
}

#[test]
fn prompt_outcome_cleans_the_rewrite() {
    let body = r#"{"choices":[{"message":{"content":"<think>..</think> \"a red fox, 8k\" "}}]}"#;
    assert_eq!(prompt_outcome(body.as_bytes()).unwrap(), "a red fox, 8k");
    let none = r#"{"choices":[{"message":{"content":"«»"}}]}"#;
    assert_eq!(prompt_outcome(none.as_bytes()).unwrap_err(), "EMPTY");
}

#[test]
fn short_prompt_inserts_the_rule_before_the_format_block() {
    let aliases = vec!["Ваня".to_string()];
    let long = system_prompt("тепло", "Иван", &aliases, false, "ну ок");
    let short = system_prompt("тепло", "Иван", &aliases, true, "ну ок");
    let k = long.rfind("Выдай ровно 3 РАЗНЫХ варианта").unwrap();
    assert_eq!(k, long.len() - PROMPT_FORMAT.len());
    assert_eq!(short, format!("{}{}{}", &long[..k], SHORT_RULE, &long[k..]));
}
