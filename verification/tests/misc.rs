use macrophage::game::Force;
use macrophage::net::{ClientChannel, ReliableChannel, RequestProfileCmd, ServerChannel};
use macrophage::util::{ColorPalette, MacroUtils, Rgb};

#[test]
fn channel_numbers() {
    assert_eq!(ClientChannel::Input.id(), 0);
    assert_eq!(ClientChannel::Command.id(), 1);
    assert_eq!(ServerChannel::NetworkFrame.id(), 0);
    assert_eq!(ServerChannel::ServerMessages.id(), 1);
}

#[test]
fn channel_settings() {
    assert_eq!(
        ClientChannel::channels_config(),
        vec![
            ReliableChannel { channel_id: 0, message_resend_millis: Some(0) },
            ReliableChannel { channel_id: 1, message_resend_millis: Some(0) },
        ]
    );
    assert_eq!(
        ServerChannel::channels_config(),
        vec![
            ReliableChannel { channel_id: 0, message_resend_millis: None },
            ReliableChannel { channel_id: 1, message_resend_millis: Some(200) },
        ]
    );
}

#[test]
fn profile_request_names_its_client() {
    assert_eq!(RequestProfileCmd::new(77).id(), 77);
}

#[test]
fn colours_of_the_forces() {
    assert_eq!(Force(0).color(), ColorPalette::ForceBlue);
    assert_eq!(Force(1).color(), ColorPalette::ForceGreen);
    assert_eq!(Force(2).color(), ColorPalette::ForceOrange);
    assert_eq!(Force(3).color(), ColorPalette::ForceRed);
    assert_eq!(Force(4).color(), ColorPalette::ForceYellow);
    assert_eq!(Force(5).color(), ColorPalette::ForceBlack);
    assert_eq!(Force(6).color(), ColorPalette::ForceWhite);
    assert_eq!(Force(9).color(), ColorPalette::ForceWhite);
}

#[test]
fn parts_of_the_colours() {
    assert_eq!(ColorPalette::ForceRed.value(), Rgb { r: 227, g: 72, b: 71 });
    assert_eq!(ColorPalette::ForceBlue.value(), Rgb { r: 150, g: 143, b: 239 });
    assert_eq!(ColorPalette::ForceYellow.value(), Rgb { r: 239, g: 255, b: 100 });
    assert_eq!(ColorPalette::ForceOrange.value(), Rgb { r: 225, g: 164, b: 3 });
    assert_eq!(ColorPalette::ForceGreen.value(), Rgb { r: 10, g: 155, b: 112 });
    assert_eq!(ColorPalette::ForceWhite.value(), Rgb { r: 255, g: 255, b: 255 });
    assert_eq!(ColorPalette::ForceBlack.value(), Rgb { r: 0, g: 0, b: 0 });
}

#[test]
fn manifest_keeps_the_files_in_order() {
    let files = vec!["b.json".to_string(), "a.json".to_string()];
    assert_eq!(MacroUtils::manifest(files.clone()).map_files, files);
}
