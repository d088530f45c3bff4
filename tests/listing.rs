use mindustry_mods::listing::{tiny_list, Icon, Mod, StarGlyph, PLACEHOLDER_ICON};
use mindustry_mods::view::{update, view, Model, Msg, Order, SortBy};

fn entry(name: &str, stars: u32) -> Mod {
    Mod {
        name: name.to_string(),
        stars,
        date_tt: 0,
        desc: format!("about {}", name),
        link: format!("https://github.com/{}", name),
        repo: "owner/name".to_string(),
        wiki: None,
        delta_ago: "3 days".to_string(),
        icon_raw: None,
        contents: vec![],
        assets: vec![],
    }
}

fn names(m: &Model) -> Vec<String> {
    m.data.iter().map(|x| x.name.clone()).collect()
}

fn stars(m: &Model) -> Vec<u32> {
    m.data.iter().map(|x| x.stars).collect()
}

fn loaded(entries: Vec<Mod>) -> Model {
    let mut m = Model::default();
    update(Msg::FetchData(Ok(entries)), &mut m);
    m
}

fn sample() -> Vec<Mod> {
    vec![entry("a", 3), entry("b", 1), entry("c", 2), entry("d", 1), entry("e", 3)]
}

#[test]
fn default_model_is_empty_and_unsorted() {
    let m = Model::default();
    assert!(m.data.is_empty());
    assert!(m.sort_state.is_none());
    assert!(m.load_error.is_none());
}

#[test]
fn first_toggle_sorts_ascending() {
    let mut m = loaded(sample());
    update(Msg::SortStarsToggle, &mut m);
    assert_eq!(stars(&m), vec![1, 1, 2, 3, 3]);
    assert!(matches!(m.sort_state, Some(SortBy::Stars(Order::Ascending))));
}

#[test]
fn toggle_from_descending_sorts_ascending() {
    let mut m = loaded(sample());
    m.sort_state = Some(SortBy::Stars(Order::Descending));
    update(Msg::SortStarsToggle, &mut m);
    assert_eq!(stars(&m), vec![1, 1, 2, 3, 3]);
    assert!(matches!(m.sort_state, Some(SortBy::Stars(Order::Ascending))));
}

#[test]
fn toggle_cycle_alternates() {
    let mut m = loaded(sample());
    update(Msg::SortStarsToggle, &mut m);
    update(Msg::SortStarsToggle, &mut m);
    assert_eq!(stars(&m), vec![3, 3, 2, 1, 1]);
    assert!(matches!(m.sort_state, Some(SortBy::Stars(Order::Descending))));
    update(Msg::SortStarsToggle, &mut m);
    assert_eq!(stars(&m), vec![1, 1, 2, 3, 3]);
    assert!(matches!(m.sort_state, Some(SortBy::Stars(Order::Ascending))));
    update(Msg::SortStarsToggle, &mut m);
    assert_eq!(stars(&m), vec![3, 3, 2, 1, 1]);
    assert!(matches!(m.sort_state, Some(SortBy::Stars(Order::Descending))));
}

#[test]
fn sort_is_stable() {
    let mut m = loaded(sample());
    update(Msg::SortStarsToggle, &mut m);
    assert_eq!(names(&m), vec!["b", "d", "c", "a", "e"]);
}

#[test]
fn descending_reverses_the_stable_order() {
    let mut m = loaded(sample());
    update(Msg::SortStarsToggle, &mut m);
    update(Msg::SortStarsToggle, &mut m);
    assert_eq!(names(&m), vec!["e", "a", "c", "d", "b"]);
}

#[test]
fn toggle_on_empty_listing() {
    let mut m = Model::default();
    update(Msg::SortStarsToggle, &mut m);
    assert!(m.data.is_empty());
    assert!(matches!(m.sort_state, Some(SortBy::Stars(Order::Ascending))));
}

#[test]
fn load_keeps_server_order() {
    let m = loaded(sample());
    assert_eq!(names(&m), vec!["a", "b", "c", "d", "e"]);
    assert!(m.sort_state.is_none());
    let cards = view(&m);
    let titles: Vec<String> = cards.iter().map(|c| c.title.clone()).collect();
    assert_eq!(titles, vec!["a", "b", "c", "d", "e"]);
}

#[test]
fn load_keeps_sort_directive() {
    let mut m = loaded(sample());
    update(Msg::SortStarsToggle, &mut m);
    update(Msg::FetchData(Ok(vec![entry("x", 9), entry("y", 0)])), &mut m);
    assert_eq!(names(&m), vec!["x", "y"]);
    assert!(matches!(m.sort_state, Some(SortBy::Stars(Order::Ascending))));
}

#[test]
fn failed_load_keeps_data_and_reports() {
    let mut m = loaded(sample());
    update(Msg::FetchData(Err("network down".to_string())), &mut m);
    assert_eq!(names(&m), vec!["a", "b", "c", "d", "e"]);
    assert_eq!(m.load_error, Some("network down".to_string()));
}

#[test]
fn name_after_last_separator() {
    assert_eq!(entry("foo/bar/Baz", 0).mod_name(), "Baz");
}

#[test]
fn name_without_separator() {
    assert_eq!(entry("Solo", 0).mod_name(), "Solo");
}

#[test]
fn name_ending_in_separator() {
    assert_eq!(entry("foo/", 0).mod_name(), "");
}

#[test]
fn noise_tag_filtered() {
    let tags = vec!["content".to_string(), "turrets".to_string(), "content".to_string()];
    assert_eq!(tiny_list(&tags), vec!["turrets".to_string()]);
}

#[test]
fn empty_tag_list() {
    assert!(tiny_list(&vec![]).is_empty());
}

#[test]
fn tag_lists_of_a_mod() {
    let mut m = entry("a", 1);
    m.assets = vec!["sprites".to_string(), "content".to_string(), "music".to_string()];
    m.contents = vec!["content".to_string()];
    assert_eq!(m.assets_list(), vec!["sprites".to_string(), "music".to_string()]);
    assert!(m.contents_list().is_empty());
}

#[test]
fn icon_absent_is_placeholder() {
    assert!(matches!(entry("a", 1).icon(), Icon::Placeholder));
}

#[test]
fn icon_empty_is_placeholder() {
    let mut m = entry("a", 1);
    m.icon_raw = Some(String::new());
    assert!(matches!(m.icon(), Icon::Placeholder));
    assert_eq!(PLACEHOLDER_ICON, "../images/nothing.png");
}

#[test]
fn icon_url_from_repo_and_path() {
    let mut m = entry("a", 1);
    m.icon_raw = Some("icon.png".to_string());
    match m.icon() {
        Icon::Image(url) => {
            assert_eq!(url, "https://raw.githubusercontent.com/owner/name/master/icon.png")
        }
        Icon::Placeholder => panic!("expected an image"),
    }
}

#[test]
fn endpoint_replaces_separators() {
    assert_eq!(entry("a", 1).endpoint_href(), "../m/owner--name.html");
}

#[test]
fn archive_link_of_repo() {
    assert_eq!(entry("a", 1).archive_link(), "https://github.com/owner/name/archive/master.zip");
}

#[test]
fn zero_stars_mark() {
    let g = entry("a", 0).stars_el();
    assert_eq!(g.len(), 1);
    assert!(matches!(g[0], StarGlyph::Empty));
}

#[test]
fn one_mark_per_star() {
    let g = entry("a", 4).stars_el();
    assert_eq!(g.len(), 4);
    assert!(g.iter().all(|x| matches!(x, StarGlyph::Filled)));
}

#[test]
fn wiki_link_only_when_present() {
    let mut m = entry("a", 1);
    assert!(m.wiki_link().is_none());
    m.wiki = Some("https://example.org/wiki".to_string());
    assert_eq!(m.wiki_link(), Some("https://example.org/wiki".to_string()));
}

#[test]
fn last_commit_text() {
    assert_eq!(entry("a", 1).last_commit(), "3 days ago");
}

#[test]
fn card_fields() {
    let mut m = entry("x/y/Turrets", 2);
    m.contents = vec!["content".to_string(), "blocks".to_string()];
    let c = m.listing_item();
    assert_eq!(c.title, "Turrets");
    assert_eq!(c.href, "../m/owner--name.html");
    assert_eq!(c.description, "about x/y/Turrets");
    assert_eq!(c.repo_link, "https://github.com/x/y/Turrets");
    assert_eq!(c.archive_link, "https://github.com/owner/name/archive/master.zip");
    assert!(c.wiki.is_none());
    assert_eq!(c.stars.len(), 2);
    assert!(c.assets.is_empty());
    assert_eq!(c.contents, vec!["blocks".to_string()]);
    assert!(matches!(c.icon, Icon::Placeholder));
}
