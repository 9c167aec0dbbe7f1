use subniri::player::PlayerCommand;
use subniri::players::{player_icon_name, player_key, ranked_players, PlayerAction, PlayerIcon, PlayerInfo, PlayerModel};

fn player(bus_name: &str, title: &str, playing: bool) -> PlayerInfo {
    PlayerInfo {
        bus_name: bus_name.to_owned(),
        title: title.to_owned(),
        can_control: true,
        playing,
        can_play: true,
        can_pause: true,
        can_go_next: true,
        can_go_previous: false,
    }
}

#[test]
fn spotify_ranks_before_firefox_and_others() {
    let spotify = player("org.mpris.MediaPlayer2.spotify", "Song", false);
    let firefox = player("org.mpris.MediaPlayer2.firefox.instance_1234", "Video", false);
    let other = player("org.mpris.MediaPlayer2.vlc", "Movie", false);
    assert_eq!(player_key(&spotify), 100);
    assert_eq!(player_key(&firefox), 200);
    assert_eq!(player_key(&other), usize::MAX - 1000);
    let playing = player("org.mpris.MediaPlayer2.spotify", "Song", true);
    assert_eq!(player_key(&playing), 90);
}

#[test]
fn players_without_title_or_control_are_not_listed() {
    let untitled = player("org.mpris.MediaPlayer2.vlc", "", false);
    assert_eq!(player_key(&untitled), usize::MAX);
    let mut locked = player("org.mpris.MediaPlayer2.vlc", "Movie", false);
    locked.can_control = false;
    let listed = ranked_players(&vec![untitled, locked]);
    assert!(listed.is_empty());
}

#[test]
fn ranking_keeps_the_order_of_equal_ranks() {
    let ps = vec![
        player("org.mpris.MediaPlayer2.vlc", "A", false),
        player("org.mpris.MediaPlayer2.mpv", "B", false),
        player("org.mpris.MediaPlayer2.firefox.instance_1", "C", false),
        player("org.mpris.MediaPlayer2.spotify", "D", false),
    ];
    let names: Vec<String> = ranked_players(&ps).into_iter().map(|p| p.bus_name).collect();
    assert_eq!(
        names,
        vec![
            "org.mpris.MediaPlayer2.spotify".to_owned(),
            "org.mpris.MediaPlayer2.firefox.instance_1".to_owned(),
            "org.mpris.MediaPlayer2.vlc".to_owned(),
            "org.mpris.MediaPlayer2.mpv".to_owned(),
        ]
    );
}

#[test]
fn refresh_prefers_a_playing_player_and_keeps_the_active_one() {
    let mut model = PlayerModel::new();
    let ps = vec![
        player("org.mpris.MediaPlayer2.vlc", "A", false),
        player("org.mpris.MediaPlayer2.mpv", "B", true),
    ];
    model.refresh(&ps);
    assert_eq!(model.active_bus_name, "org.mpris.MediaPlayer2.mpv");
    let ps = vec![
        player("org.mpris.MediaPlayer2.vlc", "A", true),
        player("org.mpris.MediaPlayer2.mpv", "B", false),
    ];
    model.refresh(&ps);
    assert_eq!(model.active_bus_name, "org.mpris.MediaPlayer2.mpv");
    model.refresh(&Vec::new());
    assert_eq!(model.active_bus_name, "");
}

#[test]
fn cycling_wraps_around() {
    let mut model = PlayerModel::new();
    model.refresh(&vec![
        player("org.mpris.MediaPlayer2.vlc", "A", false),
        player("org.mpris.MediaPlayer2.mpv", "B", false),
    ]);
    assert_eq!(model.active_bus_name, "org.mpris.MediaPlayer2.vlc");
    model.cycle_active_player();
    assert_eq!(model.active_bus_name, "org.mpris.MediaPlayer2.mpv");
    assert_eq!(model.command(PlayerCommand::Cycle), PlayerAction::Nothing);
    assert_eq!(model.active_bus_name, "org.mpris.MediaPlayer2.vlc");
}

#[test]
fn commands_act_on_the_active_player() {
    let mut model = PlayerModel::new();
    model.refresh(&vec![player("org.mpris.MediaPlayer2.vlc", "A", true)]);
    assert_eq!(model.command(PlayerCommand::TogglePlayPause), PlayerAction::Pause);
    assert_eq!(model.command(PlayerCommand::Next), PlayerAction::Next);
    assert_eq!(model.command(PlayerCommand::Previous), PlayerAction::Nothing);
    assert_eq!(model.command(PlayerCommand::SetActiveByBusName(None)), PlayerAction::Nothing);
    assert_eq!(model.active_bus_name, "");
    assert_eq!(model.command(PlayerCommand::TogglePlayPause), PlayerAction::Nothing);
    model.command(PlayerCommand::SetActiveByBusName(Some("org.mpris.MediaPlayer2.vlc".to_owned())));
    assert_eq!(model.active_player(), Some(0));
}

#[test]
fn player_icons_by_bus_name() {
    assert_eq!(player_icon_name("org.mpris.MediaPlayer2.spotify"), PlayerIcon::Spotify);
    assert_eq!(player_icon_name("org.mpris.MediaPlayer2.firefox.instance_77"), PlayerIcon::Firefox);
    assert_eq!(player_icon_name("org.mpris.MediaPlayer2.vlc"), PlayerIcon::Generic);
}
