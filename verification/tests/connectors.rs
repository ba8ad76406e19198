use anodium::desktop_layout::output::Mode;
use anodium::framework::connectors::{
    connector_name, crtc_step, mode_index, pick_crtc, wl_mode, ConnectorInterface, CrtcAction,
    CrtcEvent,
};
use anodium::geometry::Size;

#[test]
fn outputs_are_named_after_their_connectors() {
    assert_eq!(connector_name(ConnectorInterface::HDMIA, 1), "HDMI-A-1");
    assert_eq!(connector_name(ConnectorInterface::EmbeddedDisplayPort, 12), "eDP-12");
    assert_eq!(connector_name(ConnectorInterface::DisplayPort, 0), "DP-0");
    assert_eq!(connector_name(ConnectorInterface::DVII, 3), "DVI-I-3");
    assert_eq!(connector_name(ConnectorInterface::SVideo, 2), "S-VIDEO-2");
    assert_eq!(connector_name(ConnectorInterface::VGA, 105), "VGA-105");
    assert_eq!(connector_name(ConnectorInterface::Virtual, 1), "Virtual-1");
}

#[test]
fn the_first_free_crtc_is_picked() {
    assert_eq!(pick_crtc(&vec![3, 5, 7], &vec![3]), Some(5));
    assert_eq!(pick_crtc(&vec![3, 5, 7], &vec![]), Some(3));
    assert_eq!(pick_crtc(&vec![3, 5], &vec![5, 3]), None);
    assert_eq!(pick_crtc(&vec![], &vec![1]), None);
}

#[test]
fn modes_are_given_in_millihertz() {
    let m = wl_mode(1920, 1080, 60);
    assert_eq!(m, Mode { size: Size::new(1920, 1080), refresh: 60000 });
    let modes = vec![wl_mode(1280, 720, 60), m, wl_mode(1920, 1080, 60)];
    assert_eq!(mode_index(&modes, m), Some(1));
    assert_eq!(mode_index(&modes, wl_mode(640, 480, 60)), None);
}

#[test]
fn a_connector_tries_the_free_crtcs_until_one_works() {
    let candidates = vec![3, 5, 7, 5];
    let taken = vec![3];
    assert_eq!(crtc_step(&candidates, &taken, CrtcEvent::Start), CrtcAction::Try { index: 1, crtc: 5 });
    assert_eq!(
        crtc_step(&candidates, &taken, CrtcEvent::Failed { index: 1 }),
        CrtcAction::Try { index: 2, crtc: 7 }
    );
    assert_eq!(
        crtc_step(&candidates, &taken, CrtcEvent::Failed { index: 2 }),
        CrtcAction::Try { index: 3, crtc: 5 }
    );
    assert_eq!(crtc_step(&candidates, &taken, CrtcEvent::Failed { index: 3 }), CrtcAction::Done(None));
    assert_eq!(
        crtc_step(&candidates, &taken, CrtcEvent::Succeeded { index: 2 }),
        CrtcAction::Done(Some(7))
    );
    assert_eq!(crtc_step(&vec![3], &taken, CrtcEvent::Start), CrtcAction::Done(None));
}
