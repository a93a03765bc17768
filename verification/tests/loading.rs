use rich_text3d::loading::{
    handover, locale_or_default, resolve_locale, Handover, LoadCosmicFonts, LoadFonts, LoadStep,
};

#[test]
fn the_locale_set_wins() {
    assert_eq!(locale_or_default(Some("de-DE".to_string()), Some("fr-FR".to_string())), "de-DE");
    assert_eq!(locale_or_default(Some("de-DE".to_string()), None), "de-DE");
    assert_eq!(resolve_locale(Some("ja-JP".to_string())), "ja-JP");
}

#[test]
fn the_system_locale_comes_next() {
    assert_eq!(locale_or_default(None, Some("fr-FR".to_string())), "fr-FR");
}

#[test]
fn the_default_locale_comes_last() {
    assert_eq!(locale_or_default(None, None), "en-US");
}

#[test]
fn resolving_without_a_locale_gives_some_locale() {
    let locale = resolve_locale(None);
    assert!(!locale.is_empty());
}

#[test]
fn fonts_load_in_order() {
    let fonts = LoadFonts {
        font_paths: vec!["a.ttf".to_string(), "b.ttf".to_string()],
        font_directories: vec!["fonts".to_string()],
        font_embedded: vec![vec![1, 2, 3], vec![4], vec![]],
    };
    assert_eq!(
        fonts.steps(true),
        vec![
            LoadStep::SystemFonts,
            LoadStep::File(0),
            LoadStep::File(1),
            LoadStep::Directory(0),
            LoadStep::Embedded(0),
            LoadStep::Embedded(1),
            LoadStep::Embedded(2),
        ]
    );
    assert_eq!(
        fonts.steps(false),
        vec![
            LoadStep::File(0),
            LoadStep::File(1),
            LoadStep::Directory(0),
            LoadStep::Embedded(0),
            LoadStep::Embedded(1),
            LoadStep::Embedded(2),
        ]
    );
}

#[test]
fn nothing_to_load() {
    let fonts = LoadFonts::default();
    assert_eq!(fonts.steps(false), vec![]);
    assert_eq!(fonts.steps(true), vec![LoadStep::SystemFonts]);
}

#[test]
fn a_delivery_is_claimed_once() {
    let mut receiver: LoadCosmicFonts<String> = LoadCosmicFonts::new();
    let sender = receiver.share();
    assert_eq!(sender.deliver("fonts".to_string()), Ok(()));
    // the loader still holds the slot
    assert_eq!(receiver.claim(), None);
    drop(sender);
    assert_eq!(receiver.claim(), Some("fonts".to_string()));
    assert_eq!(receiver.claim(), None);
}

#[test]
fn a_second_delivery_is_given_back() {
    let receiver: LoadCosmicFonts<u32> = LoadCosmicFonts::new();
    let sender = receiver.share();
    assert_eq!(sender.deliver(1), Ok(()));
    assert_eq!(sender.deliver(2), Err(2));
    assert_eq!(receiver.deliver(3), Err(3));
    drop(receiver);
    let mut last = sender;
    assert_eq!(last.claim(), Some(1));
}

#[test]
fn an_empty_slot_has_nothing_to_claim() {
    let mut receiver: LoadCosmicFonts<u32> = LoadCosmicFonts::new();
    assert_eq!(receiver.claim(), None);
    let sender = receiver.share();
    drop(sender);
    assert_eq!(receiver.claim(), None);
}

#[test]
fn fonts_are_installed_when_they_have_arrived() {
    assert_eq!(handover(Some(5)), Handover::Install(5));
    assert_eq!(handover(None::<u8>), Handover::Wait);
    let mut receiver: LoadCosmicFonts<u8> = LoadCosmicFonts::new();
    let sender = receiver.share();
    assert_eq!(handover(receiver.claim()), Handover::Wait);
    assert_eq!(sender.deliver(7), Ok(()));
    drop(sender);
    assert_eq!(handover(receiver.claim()), Handover::Install(7));
    assert_eq!(handover(receiver.claim()), Handover::Wait);
}
