use poratake_daemon_win::desktop_wallpaper::{
    choose_wallpaper, nul_terminated_length, wallpaper_data_url, Wallpaper,
};

#[test]
fn encodes_the_transcoded_wallpaper_as_a_jpeg_data_url() {
    assert_eq!(
        wallpaper_data_url(b"hello"),
        Some("data:image/jpeg;base64,aGVsbG8=".to_string())
    );
    assert_eq!(
        wallpaper_data_url(&[0xff, 0xd8, 0xff]),
        Some("data:image/jpeg;base64,/9j/".to_string())
    );
}

#[test]
fn an_empty_transcoded_wallpaper_is_unavailable() {
    assert_eq!(wallpaper_data_url(&[]), None);
}

#[test]
fn prefers_the_system_wallpaper_path() {
    assert_eq!(
        choose_wallpaper(Some("C:\\wall.jpg".to_string()), Some("data:x".to_string())),
        Ok(Wallpaper::Path("C:\\wall.jpg".to_string()))
    );
    assert_eq!(
        choose_wallpaper(None, Some("data:x".to_string())),
        Ok(Wallpaper::Data("data:x".to_string()))
    );
    let Err(error) = choose_wallpaper(None, None) else {
        panic!("no wallpaper at all");
    };
    assert_eq!(error.code, "WALLPAPER_UNAVAILABLE");
    assert_eq!(error.message, "Could not get desktop wallpaper");
}

#[test]
fn reads_a_wide_string_up_to_its_terminator() {
    assert_eq!(nul_terminated_length(&[67, 58, 0, 65]), 2);
    assert_eq!(nul_terminated_length(&[0, 65]), 0);
    assert_eq!(nul_terminated_length(&[65, 66]), 2);
}
