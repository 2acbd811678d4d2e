use freemind_sonos::content::{get_daytime_from_time, JellyfinConfig, Playlist, Title};
use freemind_sonos::playback::{fade_in_continues, fade_out_continues};

fn title(n: &str) -> Title {
    Title { name: n.to_string(), id: format!("id-{}", n), artist: "a".to_string(), album: "b".to_string() }
}

#[test]
fn daytime_bounds_are_exclusive() {
    assert_eq!(get_daytime_from_time(66600, 0), "Afternoon");
    assert_eq!(get_daytime_from_time(66600, 1), "Evening");
    assert_eq!(get_daytime_from_time(55801, 0), "Afternoon");
    assert_eq!(get_daytime_from_time(41400, 0), "Morning");
    assert_eq!(get_daytime_from_time(43000, 0), "Noon");
    assert_eq!(get_daytime_from_time(19800, 0), "Tag");
    assert_eq!(get_daytime_from_time(0, 0), "Tag");
    assert_eq!(get_daytime_from_time(20000, 0), "Morning");
}

#[test]
fn pick_and_choose_tracks() {
    let p = Playlist { items: vec![title("x"), title("y")] };
    assert_eq!(p.pick(1).map(|t| t.name), Some("y".to_string()));
    assert!(p.pick(2).is_none());
    for _ in 0..20 {
        let t = p.choose_random().unwrap();
        assert!(t.name == "x" || t.name == "y");
        assert_eq!(t.id, format!("id-{}", t.name));
    }
    assert!(Playlist { items: Vec::new() }.choose_random().is_none());
}

#[test]
fn jellyfin_defaults() {
    let c = JellyfinConfig::default();
    assert_eq!(c.server, "https://example.com/");
    assert_eq!(c.user_id, "id of the user");
}

#[test]
fn fades_stop_near_their_ends() {
    assert!(fade_in_continues(Some(5), 10));
    assert!(!fade_in_continues(Some(7), 10));
    assert!(!fade_in_continues(None, 10));
    assert!(!fade_in_continues(Some(0), 2));
    assert!(fade_out_continues(Some(4)));
    assert!(!fade_out_continues(Some(3)));
    assert!(!fade_out_continues(None));
}
