use std::cmp::Ordering;

use mpv_ipc::config::{BaseSettings, Configuration};

#[test]
fn is_providable() {
    let mut repo = Configuration::<BaseSettings>::new();
    let config = repo.of();
    assert_eq!(
        config.is_none(),
        true,
        "Assumed that empty configuration repo would return null value"
    );
    assert_eq!(
        repo.len(),
        0,
        "Assumed that repo would be empty got size of {}",
        repo.len()
    );

    repo.provide(BaseSettings {
        api_key: Some("kake".to_string()),
        mpv_path: None,
        mpv_args: None,
    })
    .expect("Expected no error");

    let config2 = repo.of().unwrap();

    assert_eq!(
        repo.len(),
        1,
        "Assumed that repo would be empty got size of {}",
        repo.len()
    );
    assert_eq!(
        config2.api_key.as_ref().unwrap().cmp(&"kake".to_string()),
        Ordering::Equal
    );
}

#[test]
fn second_provide_is_refused_and_keeps_the_first() {
    let mut repo = Configuration::<BaseSettings>::new();
    repo.provide(BaseSettings {
        api_key: Some("first".to_string()),
        mpv_path: None,
        mpv_args: None,
    })
    .expect("Expected no error");
    let refused = repo.provide(BaseSettings {
        api_key: Some("second".to_string()),
        mpv_path: None,
        mpv_args: None,
    });
    assert!(refused.is_err());
    assert_eq!(repo.len(), 1);
    assert_eq!(repo.of().unwrap().api_key.unwrap(), "first");
}

#[test]
fn default_settings_point_at_the_player() {
    let settings = BaseSettings::default();
    assert!(settings.api_key.is_none());
    assert_eq!(settings.mpv_path.unwrap(), "mpv");
    assert_eq!(settings.mpv_args.unwrap(), "--no-video");
}
