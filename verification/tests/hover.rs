use mado::{HoverEvent, HoverPhase, HoverState, HoverTimer};

#[test]
fn entering_shows_highlight_and_delays_tooltip() {
    let s = HoverState::new().on_event(HoverEvent::PointerEntered);
    assert_eq!(s.avatar, HoverPhase::In);
    assert_eq!(s.tooltip, HoverPhase::Hidden);
    assert_eq!(s.tooltip_timer, Some(HoverTimer::TooltipDelay));
    let s = s.on_event(HoverEvent::TimerElapsed(HoverTimer::TooltipDelay));
    assert_eq!(s.tooltip, HoverPhase::In);
    assert_eq!(s.tooltip_timer, None);
}

#[test]
fn leaving_then_fading_returns_to_rest() {
    let s = HoverState::new()
        .on_event(HoverEvent::PointerEntered)
        .on_event(HoverEvent::TimerElapsed(HoverTimer::TooltipDelay))
        .on_event(HoverEvent::PointerLeft);
    assert_eq!(s.avatar, HoverPhase::Out);
    assert_eq!(s.tooltip, HoverPhase::Out);
    let s = s
        .on_event(HoverEvent::TimerElapsed(HoverTimer::AvatarFadeOut))
        .on_event(HoverEvent::TimerElapsed(HoverTimer::TooltipFadeOut));
    assert_eq!(s, HoverState::new());
}

#[test]
fn leaving_before_delay_cancels_tooltip() {
    let s = HoverState::new()
        .on_event(HoverEvent::PointerEntered)
        .on_event(HoverEvent::PointerLeft)
        .on_event(HoverEvent::TimerElapsed(HoverTimer::TooltipDelay));
    assert_eq!(s.tooltip, HoverPhase::Hidden);
    assert_eq!(s.tooltip_timer, None);
}

#[test]
fn reentering_while_tooltip_fades_shows_it_at_once() {
    let s = HoverState::new()
        .on_event(HoverEvent::PointerEntered)
        .on_event(HoverEvent::TimerElapsed(HoverTimer::TooltipDelay))
        .on_event(HoverEvent::PointerLeft)
        .on_event(HoverEvent::PointerEntered);
    assert_eq!(s.tooltip, HoverPhase::In);
    assert_eq!(s.avatar, HoverPhase::In);
    assert_eq!(s.avatar_timer, None);
    assert_eq!(s.tooltip_timer, None);
    // the cancelled fade-out no longer hides anything
    let s = s.on_event(HoverEvent::TimerElapsed(HoverTimer::AvatarFadeOut));
    assert_eq!(s.avatar, HoverPhase::In);
}
