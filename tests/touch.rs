use touch_input::{follows_lifecycle, Phase, PointerButton, Tool, Touch, TouchPoint, UnitAngle};

fn touch(id: u8, phase: Phase) -> Touch {
    Touch::new(id, TouchPoint::new(0, 0), phase, Tool::Finger)
}

#[test]
fn new_keeps_fields() {
    let tool = Tool::Stylus {
        pressure: Some(40),
        tilt: Some(UnitAngle::from_pi_radians(16384)),
        azimuth: None,
    };
    let t = Touch::new(7, TouchPoint::new(12, 34), Phase::Moved, tool);
    assert_eq!(t.id, 7);
    assert_eq!(t.location, TouchPoint::new(12, 34));
    assert_eq!(t.phase, Phase::Moved);
    assert_eq!(t.tool, tool);
    let p = Tool::Pointer { button: PointerButton::Primary };
    assert_ne!(p, Tool::Pointer { button: PointerButton::NoButton });
}

#[test]
fn hover_before_contact_is_distinct_and_allowed() {
    let hover = touch(3, Phase::Hovering(Some(120)));
    let started = touch(3, Phase::Started);
    assert_ne!(hover, started);
    assert!(follows_lifecycle(&[hover.clone(), started.clone()]));
    assert!(!follows_lifecycle(&[started, hover]));
}

#[test]
fn full_contact_then_reuse_of_id() {
    let events = [
        touch(1, Phase::Started),
        touch(1, Phase::Moved),
        touch(1, Phase::Ended),
        touch(1, Phase::Started),
        touch(1, Phase::Cancelled),
    ];
    assert!(follows_lifecycle(&events));
}

#[test]
fn restart_without_end_is_rejected() {
    assert!(!follows_lifecycle(&[touch(2, Phase::Started), touch(2, Phase::Started)]));
    assert!(!follows_lifecycle(&[
        touch(2, Phase::Started),
        touch(2, Phase::Moved),
        touch(2, Phase::Started),
    ]));
}

#[test]
fn moved_or_ended_without_start_is_rejected() {
    assert!(!follows_lifecycle(&[touch(4, Phase::Moved)]));
    assert!(!follows_lifecycle(&[touch(4, Phase::Ended)]));
    assert!(!follows_lifecycle(&[touch(4, Phase::Cancelled)]));
    assert!(!follows_lifecycle(&[touch(4, Phase::Started), touch(4, Phase::Ended), touch(4, Phase::Moved)]));
}

#[test]
fn ids_are_tracked_separately() {
    let events = [
        touch(0, Phase::Started),
        touch(255, Phase::Started),
        touch(0, Phase::Moved),
        touch(255, Phase::Ended),
        touch(0, Phase::Ended),
        touch(255, Phase::Hovering(None)),
    ];
    assert!(follows_lifecycle(&events));
    assert!(follows_lifecycle(&[]));
}
