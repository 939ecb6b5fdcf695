use indicate::color::Color;
use indicate::config::{Config, LaunchConfig, MpdConfig};

#[test]
fn named_colors() {
    let config = Config {
        colors: vec![
            ("bg".to_string(), Color(0, 0, 0, 255)),
            ("fg".to_string(), Color(255, 255, 255, 255)),
            ("accent".to_string(), Color(1, 2, 3, 4)),
        ],
        status_items: vec!["clock".to_string()],
        mpd: MpdConfig { host: "localhost".to_string(), port: 6600 },
        launch: LaunchConfig { left: None, middle: Some("x".to_string()), right: None },
    };
    assert_eq!(config.get_color("fg"), Color(255, 255, 255, 255));
    assert_eq!(config.get_color("bg"), Color(0, 0, 0, 255));
    assert_eq!(config.get_color("accent"), Color(1, 2, 3, 4));
    assert_eq!(config.mpd.port, 6600);
}
