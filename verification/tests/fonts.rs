use repose_scene::fonts::{intern_font_family, FontCache};

#[test]
fn the_empty_name_is_the_default_family() {
    let mut cache = FontCache::new();
    assert_eq!(intern_font_family(&mut cache, ""), None);
    assert_eq!(cache.len(), 0);
}

#[test]
fn a_name_is_copied_once() {
    let mut cache = FontCache::new();
    let name = String::from("DejaVu Sans");
    let first = intern_font_family(&mut cache, &name).expect("a copy");
    drop(name);
    assert_eq!(first, "DejaVu Sans");
    let second = intern_font_family(&mut cache, "DejaVu Sans").expect("the copy");
    assert_eq!(first.as_ptr(), second.as_ptr());
    assert_eq!(cache.len(), 1);
}

#[test]
fn copies_stay_as_names_come() {
    let mut cache = FontCache::new();
    let sans = intern_font_family(&mut cache, "Sans").expect("a copy");
    let serif = intern_font_family(&mut cache, "Serif").expect("a copy");
    assert_eq!((sans, serif), ("Sans", "Serif"));
    assert_eq!(cache.len(), 2);
    let again = intern_font_family(&mut cache, "Sans").expect("the copy");
    assert_eq!(sans.as_ptr(), again.as_ptr());
    let umlaut = intern_font_family(&mut cache, "Schöne Schrift").expect("a copy");
    assert_eq!(umlaut, "Schöne Schrift");
}
