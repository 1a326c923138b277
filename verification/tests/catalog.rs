use playback_core::command::song::SongRequestTarget;
use playback_core::data::channel::Property;
use playback_core::data::{Channel, Guild, User};
use playback_core::rvc::{reload, Model, ModelEntry, ModelGroup, ModelLibrary, ModelMetadata};

fn entry(raw: &str, name: &str, available: bool) -> ModelEntry {
    ModelEntry {
        raw_name: String::from(raw),
        metadata: ModelMetadata {
            name: String::from(name),
            localizations: vec![(String::from("ko"), String::from("\u{b178}\u{b798}"))],
            group: String::new(),
            select_name: String::new(),
            select_localizations: Vec::new(),
        },
        available,
    }
}

#[test]
fn set_group_prefixes_the_selection_labels() {
    let mut md = entry("voice_a", "Singer", true).metadata;
    md.set_group("  Stars  ");
    assert_eq!(md.group, "Stars");
    assert_eq!(md.select_name, "Stars - Singer");
    assert_eq!(md.select_localizations.len(), 1);
    assert_eq!(md.select_localizations[0].0, "ko");
    assert_eq!(md.select_localizations[0].1, "Stars - \u{b178}\u{b798}");
}

#[test]
fn empty_group_keeps_the_plain_labels() {
    let mut md = entry("voice_a", "Singer", true).metadata;
    md.set_group("   ");
    assert_eq!(md.group, "");
    assert_eq!(md.select_name, "Singer");
    assert_eq!(md.select_localizations[0].1, "\u{b178}\u{b798}");
}

#[test]
fn registration_skips_absent_entries_and_duplicates() {
    let lib = ModelLibrary::register_entries(vec![
        entry("a", "A", true),
        entry("b", "B", false),
        entry("a", "A again", true),
        entry("c", "C", true),
    ]);
    assert_eq!(lib.models.len(), 2);
    assert_eq!(lib.models[0].raw_name, "a");
    assert_eq!(lib.models[1].raw_name, "c");
}

#[test]
fn aliases_resolve_to_the_raw_name() {
    let lib = ModelLibrary::register_entries(vec![entry("a", "A", true)]);
    assert_eq!(lib.from_name("a").map(|m| m.name), Some(String::from("a")));
    assert_eq!(
        lib.from_name("\u{b178}\u{b798}").map(|m| m.name),
        Some(String::from("a"))
    );
    assert!(lib.from_name("unknown").is_none());
    assert_eq!(lib.from_index(0).map(|m| m.name), Some(String::from("a")));
    assert!(lib.from_index(1).is_none());
}

#[test]
fn later_alias_bindings_win() {
    let mut second = entry("b", "B", true);
    second.metadata.localizations = vec![(String::from("ko"), String::from("\u{ac19}\u{c740}"))];
    let mut first = entry("a", "A", true);
    first.metadata.localizations = vec![(String::from("ko"), String::from("\u{ac19}\u{c740}"))];
    let lib = ModelLibrary::register_entries(vec![first, second]);
    assert_eq!(lib.from_name("\u{ac19}\u{c740}").map(|m| m.name), Some(String::from("b")));
}

#[test]
fn load_folds_group_names_into_the_labels() {
    let mut g1 = ModelGroup { name: String::from("Pop"), models: vec![entry("a", "A", true)] };
    g1.models.push(entry("b", "B", true));
    let g2 = ModelGroup { name: String::from(""), models: vec![entry("c", "C", true)] };
    let lib = ModelLibrary::load(vec![g1, g2]);
    assert_eq!(lib.models.len(), 3);
    assert_eq!(lib.models[0].metadata.select_name, "Pop - A");
    assert_eq!(lib.models[1].metadata.select_name, "Pop - B");
    assert_eq!(lib.models[2].metadata.select_name, "C");
    let choices = lib.choice_list();
    assert_eq!(choices.len(), 3);
    assert_eq!(choices[0].0, "Pop - A");
    assert_eq!(choices[0].1[0].1, "Pop - \u{b178}\u{b798}");
}

#[test]
fn unreadable_catalog_falls_back_to_empty() {
    let lib = ModelLibrary::load_or_warn(None);
    assert_eq!(lib.models.len(), 0);
    assert!(lib.from_name("a").is_none());
    assert_eq!(lib.choice_list().len(), 0);
}

#[test]
fn reload_swaps_the_snapshot_in_place() {
    let mut lib = ModelLibrary::load_or_warn(None);
    reload(
        &mut lib,
        Some(vec![ModelGroup { name: String::new(), models: vec![entry("a", "A", true)] }]),
    );
    assert_eq!(lib.models.len(), 1);
    reload(&mut lib, None);
    assert_eq!(lib.models.len(), 0);
}

#[test]
fn display_name_prefers_the_locale() {
    let lib = ModelLibrary::register_entries(vec![entry("a", "A", true)]);
    let model = Model { name: String::from("a") };
    assert_eq!(model.display_name(&lib, None), Some(String::from("A")));
    assert_eq!(model.display_name(&lib, Some("ko")), Some(String::from("\u{b178}\u{b798}")));
    assert_eq!(model.display_name(&lib, Some("fr")), Some(String::from("A")));
    let missing = Model { name: String::from("zz") };
    assert_eq!(missing.display_name(&lib, None), None);
}

#[test]
fn localized_selection_labels() {
    let mut g = ModelGroup { name: String::from("Pop"), models: vec![entry("a", "A", true)] };
    g.models[0].metadata.localizations = vec![(String::from("ko"), String::from("\u{ac00}"))];
    let lib = ModelLibrary::load(vec![g]);
    let model = Model { name: String::from("a") };
    assert_eq!(
        model.localized_name(&lib, "ko"),
        Some(String::from("Pop - \u{ac00}"))
    );
    assert_eq!(model.localized_name(&lib, "fr"), None);
}

#[test]
fn request_targets() {
    assert!(SongRequestTarget::Play.should_play());
    assert!(!SongRequestTarget::Play.should_download());
    assert!(!SongRequestTarget::Download.should_play());
    assert!(SongRequestTarget::Download.should_download());
    assert!(SongRequestTarget::All.should_play());
    assert!(SongRequestTarget::All.should_download());
    assert!(matches!(SongRequestTarget::default(), SongRequestTarget::Play));
}

#[test]
fn channel_properties_are_set_and_replaced() {
    let mut c = Channel::default();
    assert!(!c.has_property(Property::is_attribute));
    c.set_property(Property::Attribute(String::from("quiet")));
    assert!(c.has_property(Property::is_attribute));
    match c.get_property(Property::is_attribute) {
        Some(Property::Attribute(a)) => assert_eq!(a, "quiet"),
        _ => panic!("expected the attribute"),
    }
    // Setting again replaces the property of the same kind.
    c.set_property(Property::Attribute(String::from("loud")));
    assert_eq!(c.properties.len(), 1);
    match &c.properties[0] {
        Property::Attribute(a) => assert_eq!(a, "loud"),
    }
    c.remove_property(Property::is_attribute);
    assert!(c.properties.is_empty());
    assert!(c.get_property(Property::is_attribute).is_none());
}

#[test]
fn property_text_names_kind_and_value() {
    let p = Property::Attribute(String::from("quiet"));
    assert_eq!(p.text(), "Attribute(quiet)");
}

#[test]
fn guild_configuration_entries() {
    let mut g = Guild::new(1);
    assert!(g.channel(5).is_none());
    g.channel_mut(5).set_property(Property::Attribute(String::from("x")));
    assert!(g.channel(5).expect("created").has_property(Property::is_attribute));
    assert!(g.user(7).is_none());
    g.user_mut(7).phone_number = Some(String::from("010"));
    assert_eq!(g.user(7).expect("created").phone_number.as_deref(), Some("010"));
    let d: User = User::default();
    assert!(d.birthday.is_none() && d.phone_number.is_none());
    g.channel_song = Some(9);
    assert!(g.is_song_channel(9));
    assert!(!g.is_song_channel(8));
}
