use embedded_svc::rest_ota::{download_id_prefix, progress_percent, resolve_download_id, update_progress, FirmwareInfo, OtaServer, UpdateError};

struct Server(Option<Option<String>>, bool);

impl OtaServer for Server {
    type Error = u8;

    fn get_latest_release(&mut self) -> Result<Option<FirmwareInfo>, u8> {
        if self.1 {
            return Err(7);
        }
        Ok(self.0.clone().map(|download_id| FirmwareInfo {
            version: "1.0".to_string(),
            released: "2024".to_string(),
            description: None,
            signature: None,
            download_id,
        }))
    }
}

#[test]
fn requested_update_wins_over_latest() {
    let mut server = Server(Some(Some("latest".to_string())), false);
    assert!(matches!(resolve_download_id(Some("mine".to_string()), &mut server), Ok(id) if id == "mine"));
    assert!(matches!(resolve_download_id(None, &mut server), Ok(id) if id == "latest"));
}

#[test]
fn missing_update_is_reported() {
    let mut none = Server(None, false);
    assert!(matches!(resolve_download_id(None, &mut none), Err(UpdateError::Missing(e)) if e.0 == "Missing update"));
    let mut no_id = Server(Some(None), false);
    assert!(matches!(resolve_download_id(None, &mut no_id), Err(UpdateError::Missing(_))));
    let mut broken = Server(None, true);
    assert!(matches!(resolve_download_id(None, &mut broken), Err(UpdateError::Server(7))));
}

#[test]
fn download_id_is_cut_at_sixty_four_bytes() {
    let long = "x".repeat(70);
    assert_eq!(download_id_prefix(&long).len(), 64);
    assert_eq!(download_id_prefix("short"), "short");
}

#[test]
fn progress_is_a_percentage() {
    assert_eq!(progress_percent(50, 200), 25);
    assert_eq!(update_progress(200, Some(200)), Some(100));
    assert_eq!(update_progress(10, None), None);
}

#[test]
fn asset_firmware_info_copies_and_checks_room() {
    let asset = embedded_svc::ghota::Asset {
        browser_download_url: "https://example.org/fw.bin",
        name: "fw.bin",
        label: None,
        updated_at: "2023-01-02T03:04:05Z",
    };
    let release = embedded_svc::ghota::Release { tag_name: "v1.2.3", body: Some("notes"), draft: false, prerelease: false, assets: vec![] };
    let info = asset.as_firmware_info::<()>(&release).ok().unwrap();
    assert_eq!(info.version, "v1.2.3");
    assert_eq!(info.released, "2023-01-02T03:04:05Z");
    assert_eq!(info.description.as_deref(), Some("notes"));
    assert!(info.signature.is_none());
    assert_eq!(info.download_id.as_deref(), Some("https://example.org/fw.bin"));
    let long = "x".repeat(25);
    let too_long = embedded_svc::ghota::Release { tag_name: &long, body: None, draft: false, prerelease: false, assets: vec![] };
    assert!(matches!(asset.as_firmware_info::<()>(&too_long), Err(embedded_svc::ghota::Error::FirmwareInfoOverflow)));
}
