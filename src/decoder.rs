use vstd::prelude::*;

verus! {

/// One of the three foot switches of the pedal.
#[derive(Clone, Copy, Debug, PartialEq, Eq, Structural)]
pub enum Switch {
    Left,
    Center,
    Right,
}

/// What the pedal reports: a switch going down or up, or the device
/// appearing or going away.
#[derive(Clone, Copy, Debug, PartialEq, Eq, Structural)]
pub enum PedalEvent {
    LeftPressed,
    LeftReleased,
    CenterPressed,
    CenterReleased,
    RightPressed,
    RightReleased,
    PedalFound,
    PedalDisconnected,
}

impl Switch {
    /// The bit of the button mask that carries this switch.
    pub open spec fn bit(self) -> u8 {
        match self {
            Switch::Left => 1,
            Switch::Center => 2,
            Switch::Right => 4,
        }
    }

    /// Position of the switch in the fixed reporting order.
    pub open spec fn rank(self) -> int {
        match self {
            Switch::Left => 0,
            Switch::Center => 1,
            Switch::Right => 2,
        }
    }

    pub fn mask_bit(&self) -> (r: u8)
        ensures
            r == self.bit(),
    {
        match self {
            Switch::Left => 1,
            Switch::Center => 2,
            Switch::Right => 4,
        }
    }
}

/// Whether `mask` shows the switch held down. Bits other than the three
/// switch bits are ignored.
pub open spec fn is_held(mask: u8, sw: Switch) -> bool {
    mask & sw.bit() != 0
}

/// The event for switch `sw` going down (`pressed`) or up.
pub open spec fn switch_event(sw: Switch, pressed: bool) -> PedalEvent {
    match sw {
        Switch::Left => if pressed { PedalEvent::LeftPressed } else { PedalEvent::LeftReleased },
        Switch::Center => if pressed { PedalEvent::CenterPressed } else { PedalEvent::CenterReleased },
        Switch::Right => if pressed { PedalEvent::RightPressed } else { PedalEvent::RightReleased },
    }
}

/// The event, if any, that switch `sw` contributes between two masks.
pub open spec fn change_of(previous: u8, current: u8, sw: Switch) -> Seq<PedalEvent> {
    if is_held(previous, sw) == is_held(current, sw) {
        seq![]
    } else {
        seq![switch_event(sw, is_held(current, sw))]
    }
}

/// The events between two masks: one per changed switch, left, center,
/// then right.
pub open spec fn decoded(previous: u8, current: u8) -> Seq<PedalEvent> {
    change_of(previous, current, Switch::Left) + change_of(previous, current, Switch::Center)
        + change_of(previous, current, Switch::Right)
}

impl PedalEvent {
    /// The switch that a press or release event is about.
    pub open spec fn switch_of(self) -> Option<Switch> {
        match self {
            PedalEvent::LeftPressed | PedalEvent::LeftReleased => Some(Switch::Left),
            PedalEvent::CenterPressed | PedalEvent::CenterReleased => Some(Switch::Center),
            PedalEvent::RightPressed | PedalEvent::RightReleased => Some(Switch::Right),
            _ => None,
        }
    }

    pub fn for_switch(sw: Switch, pressed: bool) -> (r: PedalEvent)
        ensures
            r == switch_event(sw, pressed),
    {
        match sw {
            Switch::Left => if pressed { PedalEvent::LeftPressed } else { PedalEvent::LeftReleased },
            Switch::Center => if pressed { PedalEvent::CenterPressed } else { PedalEvent::CenterReleased },
            Switch::Right => if pressed { PedalEvent::RightPressed } else { PedalEvent::RightReleased },
        }
    }
}

/// Name of the notification channel that carries the event.
pub open spec fn channel_of(e: PedalEvent) -> Seq<char> {
    match e {
        PedalEvent::PedalFound => "pedal-found"@,
        PedalEvent::PedalDisconnected => "pedal-disconnected"@,
        _ => "pedal-action"@,
    }
}

/// Name under which a press or release is published; lifecycle events have
/// none (their payload is the flag `true`).
pub open spec fn action_name_of(e: PedalEvent) -> Option<Seq<char>> {
    match e {
        PedalEvent::LeftPressed => Some("left-pressed"@),
        PedalEvent::LeftReleased => Some("left-released"@),
        PedalEvent::CenterPressed => Some("center-pressed"@),
        PedalEvent::CenterReleased => Some("center-released"@),
        PedalEvent::RightPressed => Some("right-pressed"@),
        PedalEvent::RightReleased => Some("right-released"@),
        _ => None,
    }
}

impl PedalEvent {
    pub fn channel(&self) -> (r: &'static str)
        ensures
            r@ == channel_of(*self),
    {
        match self {
            PedalEvent::PedalFound => "pedal-found",
            PedalEvent::PedalDisconnected => "pedal-disconnected",
            _ => "pedal-action",
        }
    }

    pub fn action_name(&self) -> (r: Option<&'static str>)
        ensures
            r matches Some(n) ==> action_name_of(*self) == Some(n@),
            r is None ==> action_name_of(*self) is None,
    {
        match self {
            PedalEvent::LeftPressed => Some("left-pressed"),
            PedalEvent::LeftReleased => Some("left-released"),
            PedalEvent::CenterPressed => Some("center-pressed"),
            PedalEvent::CenterReleased => Some("center-released"),
            PedalEvent::RightPressed => Some("right-pressed"),
            PedalEvent::RightReleased => Some("right-released"),
            _ => None,
        }
    }
}

/// Appends the event that `sw` contributes between the two masks, if any.
fn push_change(events: &mut Vec<PedalEvent>, previous: u8, current: u8, sw: Switch)
    ensures
        final(events)@ == old(events)@ + change_of(previous, current, sw),
{
    let bit = sw.mask_bit();
    let was_held = previous & bit != 0;
    let now_held = current & bit != 0;
    if was_held != now_held {
        events.push(PedalEvent::for_switch(sw, now_held));
    } else {
        assert(old(events)@ + seq![] =~= old(events)@);
    }
}

/// Decodes the change between two button masks into press and release
/// events, one per switch whose bit differs, in the order left, center,
/// right.
pub fn decode(previous: u8, current: u8) -> (events: Vec<PedalEvent>)
    ensures
        events@ == decoded(previous, current),
{
    let mut events: Vec<PedalEvent> = Vec::new();
    push_change(&mut events, previous, current, Switch::Left);
    push_change(&mut events, previous, current, Switch::Center);
    push_change(&mut events, previous, current, Switch::Right);
    assert(events@ =~= decoded(previous, current));
    events
}

/// Decoding a mask against itself yields no event.
pub proof fn lemma_unchanged_mask_is_silent(mask: u8)
    ensures
        decoded(mask, mask) == Seq::<PedalEvent>::empty(),
{
    assert(decoded(mask, mask) =~= Seq::<PedalEvent>::empty());
}

/// When the two masks differ in exactly one switch bit, decoding yields
/// exactly one event: for that switch, a press when the bit went from 0 to
/// 1 and a release when it went from 1 to 0.
pub proof fn lemma_single_switch_change(previous: u8, current: u8, sw: Switch)
    requires
        previous ^ current == sw.bit(),
    ensures
        decoded(previous, current) == seq![switch_event(sw, !is_held(previous, sw) && is_held(current, sw))],
        is_held(previous, sw) != is_held(current, sw),
{
    match sw {
        Switch::Left => {
            assert(previous ^ current == 1u8 ==> (previous & 1u8 != 0) != (current & 1u8 != 0)
                && (previous & 2u8 != 0) == (current & 2u8 != 0)
                && (previous & 4u8 != 0) == (current & 4u8 != 0)) by (bit_vector);
        },
        Switch::Center => {
            assert(previous ^ current == 2u8 ==> (previous & 1u8 != 0) == (current & 1u8 != 0)
                && (previous & 2u8 != 0) != (current & 2u8 != 0)
                && (previous & 4u8 != 0) == (current & 4u8 != 0)) by (bit_vector);
        },
        Switch::Right => {
            assert(previous ^ current == 4u8 ==> (previous & 1u8 != 0) == (current & 1u8 != 0)
                && (previous & 2u8 != 0) == (current & 2u8 != 0)
                && (previous & 4u8 != 0) != (current & 4u8 != 0)) by (bit_vector);
        },
    }
    assert(decoded(previous, current) =~= seq![switch_event(sw, !is_held(previous, sw) && is_held(current, sw))]);
}

/// Whatever bits change together, the events come out in the fixed order
/// left, center, right, each for a switch that changed and in the direction
/// it changed, and every changed switch has its event.
pub proof fn lemma_events_in_switch_order(previous: u8, current: u8)
    ensures
        forall|i: int, j: int|
            0 <= i < j < decoded(previous, current).len() ==> (#[trigger] decoded(previous, current)[i]).switch_of().unwrap().rank()
                < (#[trigger] decoded(previous, current)[j]).switch_of().unwrap().rank(),
        forall|i: int|
            0 <= i < decoded(previous, current).len() ==> {
                let e = #[trigger] decoded(previous, current)[i];
                &&& e.switch_of() is Some
                &&& is_held(previous, e.switch_of().unwrap()) != is_held(current, e.switch_of().unwrap())
                &&& e == switch_event(e.switch_of().unwrap(), is_held(current, e.switch_of().unwrap()))
            },
        forall|sw: Switch|
            is_held(previous, sw) != is_held(current, sw) ==> decoded(previous, current).contains(
                #[trigger] switch_event(sw, is_held(current, sw)),
            ),
{
    let l = change_of(previous, current, Switch::Left);
    let c = change_of(previous, current, Switch::Center);
    let r = change_of(previous, current, Switch::Right);
    let d = decoded(previous, current);
    assert(d == l + c + r);
    assert forall|i: int| 0 <= i < d.len() implies {
        let e = #[trigger] d[i];
        &&& e.switch_of() is Some
        &&& is_held(previous, e.switch_of().unwrap()) != is_held(current, e.switch_of().unwrap())
        &&& e == switch_event(e.switch_of().unwrap(), is_held(current, e.switch_of().unwrap()))
        &&& (i < l.len() ==> e.switch_of() == Some(Switch::Left))
        &&& (l.len() <= i < l.len() + c.len() ==> e.switch_of() == Some(Switch::Center))
        &&& (l.len() + c.len() <= i ==> e.switch_of() == Some(Switch::Right))
    } by {
        if i < l.len() {
            assert(d[i] == l[i]);
        } else if i < l.len() + c.len() {
            assert(d[i] == c[i - l.len()]);
        } else {
            assert(d[i] == r[i - l.len() - c.len()]);
        }
    }
    assert forall|sw: Switch| is_held(previous, sw) != is_held(current, sw) implies d.contains(
        #[trigger] switch_event(sw, is_held(current, sw)),
    ) by {
        match sw {
            Switch::Left => {
                assert(d[0] == switch_event(sw, is_held(current, sw)));
            },
            Switch::Center => {
                assert(d[l.len() as int] == switch_event(sw, is_held(current, sw)));
            },
            Switch::Right => {
                assert(d[(l.len() + c.len()) as int] == switch_event(sw, is_held(current, sw)));
            },
        }
    }
}

} // verus!
