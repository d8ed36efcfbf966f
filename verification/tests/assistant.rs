use sq_app::assistant::{chosen, panel_on, provider_for, token_limit};
use sq_app::error::UiError;

#[test]
fn the_panel_refuses_while_it_is_off() {
    assert!(panel_on(true).is_ok());
    match panel_on(false) {
        Err(UiError::Invalid { message }) => assert_eq!(message, "the AI panel is turned off"),
        _ => panic!("the panel answered while off"),
    }
}

/// A tile's own choice counts once trimmed; a blank one falls back to the settings.
#[test]
fn a_blank_choice_is_no_choice() {
    assert_eq!(chosen(Some("  gpt-5-mini ")), Some("gpt-5-mini".to_string()));
    assert_eq!(chosen(Some(" \t\n")), None);
    assert_eq!(chosen(None), None);
    assert_eq!(provider_for(Some(" anthropic "), "openai"), "anthropic");
    assert_eq!(provider_for(Some("   "), "openai"), "openai");
    assert_eq!(provider_for(None, "openai"), "openai");
}

#[test]
fn an_answer_is_never_cut_below_the_floor() {
    assert_eq!(token_limit(Some(10), 256), Some(256));
    assert_eq!(token_limit(Some(4000), 256), Some(4000));
    assert_eq!(token_limit(None, 256), None);
}
