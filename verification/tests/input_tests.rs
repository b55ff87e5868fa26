use zen::autoclose::{bracket_pair_for_input, input_action, InputAction, QuoteFact, RegionFacts};
use zen::language::{plain_text, rust_lang, LanguageId};

#[test]
fn an_opening_bracket_inserts_its_closing_one() {
    let rust = rust_lang(LanguageId(1));
    let scope = rust.default_scope();
    let pairs = scope.brackets();
    let (ix, opens) = bracket_pair_for_input("(", "f", &scope).unwrap();
    let pair = Some((pairs[ix].0, opens));
    let act = input_action("(", pair, true, true, true, None, &scope, false, Some(true), &vec![], None, false, false);
    assert_eq!(act, InputAction::InsertWithClosing);
    let before_word = input_action("(", pair, true, true, true, Some('x'), &scope, false, Some(true), &vec![], None, false, false);
    assert_eq!(before_word, InputAction::Replace);
    let off = input_action("(", pair, true, false, true, None, &scope, false, None, &vec![], None, false, false);
    assert_eq!(off, InputAction::Replace);
}

#[test]
fn a_quote_after_a_word_is_not_doubled() {
    let rust = rust_lang(LanguageId(1));
    let scope = rust.default_scope();
    let pairs = scope.brackets();
    let (ix, opens) = bracket_pair_for_input("\"", "a", &scope).unwrap();
    let pair = Some((pairs[ix].0, opens));
    assert_eq!(
        input_action("\"", pair, true, true, true, None, &scope, false, Some(true), &vec![], None, false, false),
        InputAction::Replace
    );
    assert_eq!(
        input_action("\"", pair, true, true, true, None, &scope, false, Some(false), &vec![], None, false, false),
        InputAction::InsertWithClosing
    );
    let open_quote = vec![QuoteFact { ch: '"', enabled: true, is_delimiter: false }];
    assert_eq!(
        input_action("\"", pair, true, true, true, None, &scope, false, Some(false), &open_quote, None, false, false),
        InputAction::Replace
    );
    let two = vec![open_quote[0], QuoteFact { ch: '"', enabled: true, is_delimiter: false }];
    assert_eq!(
        input_action("\"", pair, true, true, true, None, &scope, false, Some(false), &two, None, false, false),
        InputAction::InsertWithClosing
    );
}

#[test]
fn a_closing_bracket_steps_over_the_inserted_one() {
    let rust = rust_lang(LanguageId(1));
    let scope = rust.default_scope();
    let pairs = scope.brackets();
    let (ix, opens) = bracket_pair_for_input(")", "f(", &scope).unwrap();
    assert!(!opens);
    let pair = Some((pairs[ix].0, opens));
    let region = RegionFacts { ends_at_selection: true, pair_end: ")".to_string(), text_follows: true };
    assert_eq!(
        input_action(")", pair, true, true, true, Some(')'), &scope, false, None, &vec![], Some(&region), false, false),
        InputAction::SkipClosing { len: 1 }
    );
    assert_eq!(
        input_action(")", pair, true, true, true, Some(')'), &scope, false, None, &vec![], None, true, true),
        InputAction::SkipClosing { len: 1 }
    );
    assert_eq!(
        input_action(")", pair, true, true, true, Some(')'), &scope, false, None, &vec![], None, false, true),
        InputAction::Replace
    );
}

#[test]
fn an_opening_bracket_surrounds_a_selection() {
    let text = plain_text(LanguageId(2));
    let scope = text.default_scope();
    let pairs = scope.brackets();
    let (ix, opens) = bracket_pair_for_input("[", "", &scope).unwrap();
    let pair = Some((pairs[ix].0, opens));
    assert_eq!(
        input_action("[", pair, false, true, true, None, &scope, false, None, &vec![], None, false, false),
        InputAction::Surround
    );
    assert_eq!(
        input_action("[", pair, false, true, false, None, &scope, false, None, &vec![], None, false, false),
        InputAction::Replace
    );
    assert_eq!(input_action("x", None, true, true, true, None, &scope, false, None, &vec![], None, false, false), InputAction::Replace);
}
