//! The hover behaviour of the launcher's account avatar: the avatar's
//! highlight and its tooltip each fade in and out, the tooltip only after a
//! short delay, and a timer that was cancelled never fires.
use vstd::prelude::*;

verus! {

/// Where one hover effect stands.
#[derive(Debug, Clone, Copy, PartialEq, Eq, Structural)]
pub enum HoverPhase {
    Hidden,
    In,
    Out,
}

/// A timer the page waits on.
#[derive(Debug, Clone, Copy, PartialEq, Eq, Structural)]
pub enum HoverTimer {
    /// The delay before the tooltip shows.
    TooltipDelay,
    /// The avatar highlight's fade-out.
    AvatarFadeOut,
    /// The tooltip's fade-out.
    TooltipFadeOut,
}

/// What happens to the avatar.
#[derive(Debug, Clone, Copy, PartialEq, Eq, Structural)]
pub enum HoverEvent {
    PointerEntered,
    PointerLeft,
    TimerElapsed(HoverTimer),
}

/// Both effects, with the timer each one waits on, if any.
#[derive(Debug, Clone, Copy, PartialEq, Eq, Structural)]
pub struct HoverState {
    pub avatar: HoverPhase,
    pub tooltip: HoverPhase,
    pub avatar_timer: Option<HoverTimer>,
    pub tooltip_timer: Option<HoverTimer>,
}

/// Nothing shown, nothing pending.
pub open spec fn hover_idle() -> HoverState {
    HoverState {
        avatar: HoverPhase::Hidden,
        tooltip: HoverPhase::Hidden,
        avatar_timer: None,
        tooltip_timer: None,
    }
}

/// The next state: entering shows the highlight at once and the tooltip after
/// its delay (at once if it is still fading), cancelling pending timers;
/// leaving fades out whatever shows; an elapsed timer that is still pending
/// completes its effect, any other is ignored.
pub open spec fn hover_next(s: HoverState, e: HoverEvent) -> HoverState {
    match e {
        HoverEvent::PointerEntered => if s.tooltip == HoverPhase::Hidden {
            HoverState {
                avatar: HoverPhase::In,
                tooltip: s.tooltip,
                avatar_timer: None,
                tooltip_timer: Some(HoverTimer::TooltipDelay),
            }
        } else {
            HoverState {
                avatar: HoverPhase::In,
                tooltip: HoverPhase::In,
                avatar_timer: None,
                tooltip_timer: None,
            }
        },
        HoverEvent::PointerLeft => {
            let (avatar, avatar_timer) = if s.avatar != HoverPhase::Hidden {
                (HoverPhase::Out, Some(HoverTimer::AvatarFadeOut))
            } else {
                (s.avatar, s.avatar_timer)
            };
            let (tooltip, tooltip_timer) = if s.tooltip != HoverPhase::Hidden {
                (HoverPhase::Out, Some(HoverTimer::TooltipFadeOut))
            } else {
                (s.tooltip, None)
            };
            HoverState { avatar, tooltip, avatar_timer, tooltip_timer }
        },
        HoverEvent::TimerElapsed(t) => match t {
            HoverTimer::TooltipDelay => if s.tooltip_timer == Some(HoverTimer::TooltipDelay) {
                HoverState { tooltip: HoverPhase::In, tooltip_timer: None, ..s }
            } else {
                s
            },
            HoverTimer::AvatarFadeOut => if s.avatar_timer == Some(HoverTimer::AvatarFadeOut) {
                HoverState { avatar: HoverPhase::Hidden, avatar_timer: None, ..s }
            } else {
                s
            },
            HoverTimer::TooltipFadeOut => if s.tooltip_timer == Some(HoverTimer::TooltipFadeOut) {
                HoverState { tooltip: HoverPhase::Hidden, tooltip_timer: None, ..s }
            } else {
                s
            },
        },
    }
}

impl HoverState {
    /// Nothing shown, nothing pending.
    pub fn new() -> (r: Self)
        ensures
            r == hover_idle(),
    {
        HoverState {
            avatar: HoverPhase::Hidden,
            tooltip: HoverPhase::Hidden,
            avatar_timer: None,
            tooltip_timer: None,
        }
    }

    /// The state after `event` (see `hover_next`).
    pub fn on_event(self, event: HoverEvent) -> (r: Self)
        ensures
            r == hover_next(self, event),
    {
        match event {
            HoverEvent::PointerEntered => {
                if self.tooltip == HoverPhase::Hidden {
                    HoverState {
                        avatar: HoverPhase::In,
                        tooltip: self.tooltip,
                        avatar_timer: None,
                        tooltip_timer: Some(HoverTimer::TooltipDelay),
                    }
                } else {
                    HoverState {
                        avatar: HoverPhase::In,
                        tooltip: HoverPhase::In,
                        avatar_timer: None,
                        tooltip_timer: None,
                    }
                }
            },
            HoverEvent::PointerLeft => {
                let (avatar, avatar_timer) = if self.avatar != HoverPhase::Hidden {
                    (HoverPhase::Out, Some(HoverTimer::AvatarFadeOut))
                } else {
                    (self.avatar, self.avatar_timer)
                };
                let (tooltip, tooltip_timer) = if self.tooltip != HoverPhase::Hidden {
                    (HoverPhase::Out, Some(HoverTimer::TooltipFadeOut))
                } else {
                    (self.tooltip, None)
                };
                HoverState { avatar, tooltip, avatar_timer, tooltip_timer }
            },
            HoverEvent::TimerElapsed(t) => match t {
                HoverTimer::TooltipDelay => {
                    if self.tooltip_timer == Some(HoverTimer::TooltipDelay) {
                        HoverState { tooltip: HoverPhase::In, tooltip_timer: None, ..self }
                    } else {
                        self
                    }
                },
                HoverTimer::AvatarFadeOut => {
                    if self.avatar_timer == Some(HoverTimer::AvatarFadeOut) {
                        HoverState { avatar: HoverPhase::Hidden, avatar_timer: None, ..self }
                    } else {
                        self
                    }
                },
                HoverTimer::TooltipFadeOut => {
                    if self.tooltip_timer == Some(HoverTimer::TooltipFadeOut) {
                        HoverState { tooltip: HoverPhase::Hidden, tooltip_timer: None, ..self }
                    } else {
                        self
                    }
                },
            },
        }
    }
}

/// Entering always shows the avatar highlight.
pub proof fn law_enter_shows_highlight(s: HoverState)
    ensures
        hover_next(s, HoverEvent::PointerEntered).avatar == HoverPhase::In,
        hover_next(s, HoverEvent::PointerEntered).avatar_timer is None,
{
}

/// While both the highlight and the tooltip show (or fade), leaving and then
/// letting both fade-outs run brings everything back to rest.
pub proof fn law_leave_then_fade_is_idle(s: HoverState)
    requires
        s.avatar != HoverPhase::Hidden,
        s.tooltip != HoverPhase::Hidden,
    ensures
        hover_next(
            hover_next(
                hover_next(s, HoverEvent::PointerLeft),
                HoverEvent::TimerElapsed(HoverTimer::AvatarFadeOut),
            ),
            HoverEvent::TimerElapsed(HoverTimer::TooltipFadeOut),
        ) == hover_idle(),
{
}

/// Leaving before the tooltip's delay ran out cancels it: the tooltip never shows.
pub proof fn law_leave_cancels_tooltip_delay(s: HoverState)
    requires
        s.tooltip == HoverPhase::Hidden,
    ensures
        hover_next(
            hover_next(hover_next(s, HoverEvent::PointerEntered), HoverEvent::PointerLeft),
            HoverEvent::TimerElapsed(HoverTimer::TooltipDelay),
        ).tooltip == HoverPhase::Hidden,
{
}

/// Each pending timer belongs to the phase it ends: the highlight's fade-out
/// timer runs exactly while it fades out; the tooltip's fade-out timer exactly
/// while it fades out; its delay only while it is hidden.
pub open spec fn hover_consistent(s: HoverState) -> bool {
    &&& s.avatar_timer == (if s.avatar == HoverPhase::Out {
        Some(HoverTimer::AvatarFadeOut)
    } else {
        None
    })
    &&& match s.tooltip {
        HoverPhase::Out => s.tooltip_timer == Some(HoverTimer::TooltipFadeOut),
        HoverPhase::In => s.tooltip_timer is None,
        HoverPhase::Hidden => s.tooltip_timer is None || s.tooltip_timer == Some(
            HoverTimer::TooltipDelay,
        ),
    }
}

/// Rest is consistent, and every event keeps a consistent state consistent.
pub proof fn law_events_keep_hover_consistent(s: HoverState, e: HoverEvent)
    ensures
        hover_consistent(hover_idle()),
        hover_consistent(s) ==> hover_consistent(hover_next(s, e)),
{
}

} // verus!
