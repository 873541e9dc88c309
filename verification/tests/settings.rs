use aseqmatrix::config::AppConfig;
use aseqmatrix::error::{Error, GatewayError};
use aseqmatrix::graphics::{PixelDimension, TileDimension, TileTexture};

#[test]
fn default_theme_is_memphis() {
    assert_eq!(AppConfig::default_theme_manifest_path(), "themes/memphis/theme.toml");
}

#[test]
fn settings_fall_back_to_plain_labels_and_the_default_theme() {
    let config = AppConfig::new(None);
    assert!(!config.show_addresses);
    assert_eq!(config.theme_manifest_path, "themes/memphis/theme.toml");
}

#[test]
fn stored_settings_are_taken_as_they_are() {
    let stored = AppConfig { show_addresses: true, theme_manifest_path: "themes/amber/theme.toml".to_string() };
    assert_eq!(AppConfig::new(Some(stored.clone())), stored);
}

#[test]
fn blank_settings_have_no_theme() {
    let config = AppConfig::default();
    assert!(!config.show_addresses);
    assert_eq!(config.theme_manifest_path, "");
}

#[test]
fn toggling_addresses_flips_the_flag_only() {
    let mut config = AppConfig::new(None);
    config.toggle_addresses();
    assert!(config.show_addresses);
    assert_eq!(config.theme_manifest_path, "themes/memphis/theme.toml");
    config.toggle_addresses();
    assert!(!config.show_addresses);
}

#[test]
fn tile_size_is_the_sheet_divided_by_its_tiles() {
    let sheet = TileTexture::new(
        PixelDimension { width: 128, height: 100 },
        TileDimension { width: 16, height: 8 },
    )
    .unwrap();
    assert_eq!(sheet.tile_size, PixelDimension { width: 8, height: 12 });
    assert_eq!(sheet.tiles_per_dimension, TileDimension { width: 16, height: 8 });
}

#[test]
fn sheet_without_tiles_has_no_geometry() {
    let size = PixelDimension { width: 128, height: 128 };
    assert_eq!(TileTexture::new(size, TileDimension { width: 0, height: 8 }), None);
    assert_eq!(TileTexture::new(size, TileDimension { width: 16, height: 0 }), None);
}

#[test]
fn errors_say_what_failed() {
    assert_eq!(Error::SubsystemUnavailable.message(), "sequencer subsystem unavailable");
    assert_eq!(Error::SynchronizerTerminated.message(), "synchronizer terminated");
    assert_eq!(
        Error::MutationFailed(GatewayError::AlreadyConnected).message(),
        "toggle failed: already connected"
    );
    assert_eq!(Error::MutationFailed(GatewayError::NotConnected).message(), "toggle failed: not connected");
    assert_eq!(
        Error::MutationFailed(GatewayError::Io(-19)).message(),
        "toggle failed: subsystem error -19"
    );
    assert_eq!(GatewayError::Io(5).message(), "subsystem error 5");
}
