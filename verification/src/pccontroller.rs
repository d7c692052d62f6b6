//! Pointer and keyboard commands of a remote viewer, and the host input
//! events that replay them.

use crate::keys::{
    key_for, key_table, key_table_row, lemma_first_row_decides, lemma_table_rows, resolves_at, Key,
    KEY_TABLE_ROWS,
};
use crate::scale::{scaled, HostDisplayMetrics};
use crate::text::same_text;
use vstd::prelude::*;

verus! {

/// Milliseconds to wait after each event handed to the host.
pub const PACING_DELAY_MS: u64 = 20;

/// A button of the host pointer.
#[derive(Clone, Copy, Debug, PartialEq, Eq, Hash, Structural)]
pub enum Button {
    Left,
    Right,
    Middle,
    /// A button that has no name, with the raw code given to the host.
    Unknown(u8),
}

/// An input event to replay on the host.
#[derive(Clone, Copy, Debug, PartialEq, Eq, Structural)]
pub enum InputEvent {
    KeyPress(Key),
    KeyRelease(Key),
    ButtonPress(Button),
    ButtonRelease(Button),
    /// Pointer position in host pixels, from the top left corner.
    MouseMove { x: i64, y: i64 },
    Wheel { delta_x: i64, delta_y: i64 },
}

/// One step of replaying a command on the host.
#[derive(Clone, Copy, Debug, PartialEq, Eq, Structural)]
pub enum Step {
    /// Hand the event to the host. A host that rejects it is not asked again.
    Emit(InputEvent),
    /// Wait before the next step.
    Pause { millis: u64 },
}

/// Why a command gives no events.
#[derive(Clone, Copy, Debug, PartialEq, Eq, Structural)]
pub enum RequestError {
    /// The `id` names no kind of command.
    UnknownId,
    /// `x` or `y` is absent.
    MissingPosition,
    /// `height` is absent.
    MissingHeight,
    /// `height` is zero, so the position has no scale.
    ZeroHeight,
    /// `button` is absent from a press or a release.
    MissingButton,
    /// `delta_x` or `delta_y` is absent from a wheel command.
    MissingDelta,
    /// A wheel delta is the least `i64`, which has no opposite.
    DeltaOutOfRange,
}

/// The host button that a button number of a viewer stands for.
pub open spec fn button_for(number: u8) -> Button {
    if number == 0 {
        Button::Left
    } else if number == 1 {
        Button::Middle
    } else if number == 2 {
        Button::Right
    } else {
        Button::Unknown(0)
    }
}

/// The steps that replay `events` in order, each followed by the pacing
/// delay.
pub open spec fn paced(events: Seq<InputEvent>) -> Seq<Step> {
    Seq::new(
        2 * events.len(),
        |i: int|
            if i % 2 == 0 {
                Step::Emit(events[i / 2])
            } else {
                Step::Pause { millis: PACING_DELAY_MS }
            },
    )
}

/// Puts the pacing delay after each event.
pub fn pace(events: &Vec<InputEvent>) -> (steps: Vec<Step>)
    ensures
        steps@ == paced(events@),
{
    let mut steps: Vec<Step> = Vec::new();
    let mut i: usize = 0;
    while i < events.len()
        invariant
            i <= events.len(),
            steps@.len() == 2 * i,
            forall|k: int| 0 <= k < steps@.len() ==> steps@[k] == paced(events@)[k],
        decreases events.len() - i,
    {
        steps.push(Step::Emit(events[i]));
        steps.push(Step::Pause { millis: PACING_DELAY_MS });
        i += 1;
    }
    assert(steps@ =~= paced(events@));
    steps
}

/// The host button for a viewer's button number.
pub fn host_button(number: u8) -> (button: Button)
    ensures
        button == button_for(number),
{
    if number == 0 {
        Button::Left
    } else if number == 1 {
        Button::Middle
    } else if number == 2 {
        Button::Right
    } else {
        Button::Unknown(0)
    }
}

/// A pointer command as a viewer sends it. `id` selects the kind: 0 presses a
/// button, 1 releases one, 2 only moves, 3 turns the wheel. The position is
/// relative to a viewport of `height` pixels.
#[derive(Clone, Copy, Debug)]
pub struct MouseRequest {
    pub id: u8,
    pub x: Option<i32>,
    pub y: Option<i32>,
    pub delta_x: Option<i64>,
    pub delta_y: Option<i64>,
    pub height: Option<u32>,
    pub button: Option<u8>,
}

impl MouseRequest {
    /// The move to the commanded position, in host pixels.
    pub open spec fn move_event(self, metrics: HostDisplayMetrics) -> Result<
        InputEvent,
        RequestError,
    > {
        if self.x is None || self.y is None {
            Err(RequestError::MissingPosition)
        } else if self.height is None {
            Err(RequestError::MissingHeight)
        } else if self.height->0 == 0 {
            Err(RequestError::ZeroHeight)
        } else {
            Ok(
                InputEvent::MouseMove {
                    x: scaled(self.x->0 as int, metrics.height as int, self.height->0 as int) as i64,
                    y: scaled(self.y->0 as int, metrics.height as int, self.height->0 as int) as i64,
                },
            )
        }
    }

    /// The host button of a press or a release.
    pub open spec fn commanded_button(self) -> Result<Button, RequestError> {
        if self.button is None {
            Err(RequestError::MissingButton)
        } else {
            Ok(button_for(self.button->0))
        }
    }

    /// The wheel event: both deltas with their signs turned.
    pub open spec fn wheel_event(self) -> Result<InputEvent, RequestError> {
        if self.delta_x is None || self.delta_y is None {
            Err(RequestError::MissingDelta)
        } else if self.delta_x->0 == i64::MIN || self.delta_y->0 == i64::MIN {
            Err(RequestError::DeltaOutOfRange)
        } else {
            Ok(
                InputEvent::Wheel {
                    delta_x: (-self.delta_x->0) as i64,
                    delta_y: (-self.delta_y->0) as i64,
                },
            )
        }
    }

    /// What follows the move: a press, a release, nothing, or the wheel.
    pub open spec fn action_event(self) -> Result<Option<InputEvent>, RequestError> {
        if self.id == 0 {
            match self.commanded_button() {
                Ok(button) => Ok(Some(InputEvent::ButtonPress(button))),
                Err(e) => Err(e),
            }
        } else if self.id == 1 {
            match self.commanded_button() {
                Ok(button) => Ok(Some(InputEvent::ButtonRelease(button))),
                Err(e) => Err(e),
            }
        } else if self.id == 2 {
            Ok(None)
        } else if self.id == 3 {
            match self.wheel_event() {
                Ok(event) => Ok(Some(event)),
                Err(e) => Err(e),
            }
        } else {
            Err(RequestError::UnknownId)
        }
    }

    /// The events of the command: always the move first, so that what follows
    /// happens at the commanded position. A command with an unknown `id` or
    /// without a field that it needs has no events at all.
    pub open spec fn events(self, metrics: HostDisplayMetrics) -> Result<
        Seq<InputEvent>,
        RequestError,
    > {
        if self.id > 3 {
            Err(RequestError::UnknownId)
        } else {
            match (self.move_event(metrics), self.action_event()) {
                (Err(e), _) => Err(e),
                (Ok(_), Err(e)) => Err(e),
                (Ok(moved), Ok(None)) => Ok(seq![moved]),
                (Ok(moved), Ok(Some(action))) => Ok(seq![moved, action]),
            }
        }
    }

    /// The steps that replay the command.
    pub open spec fn plan(self, metrics: HostDisplayMetrics) -> Result<Seq<Step>, RequestError> {
        match self.events(metrics) {
            Ok(events) => Ok(paced(events)),
            Err(e) => Err(e),
        }
    }

    /// The move to the commanded position.
    pub fn mouse_move(&self, metrics: &HostDisplayMetrics) -> (event: Result<
        InputEvent,
        RequestError,
    >)
        ensures
            event == self.move_event(*metrics),
    {
        let (x, y) = match (self.x, self.y) {
            (Some(x), Some(y)) => (x, y),
            _ => { return Err(RequestError::MissingPosition); },
        };
        let height = match self.height {
            Some(height) => height,
            None => { return Err(RequestError::MissingHeight); },
        };
        match metrics.scale((x, y), height) {
            Some((host_x, host_y)) => Ok(InputEvent::MouseMove { x: host_x, y: host_y }),
            None => Err(RequestError::ZeroHeight),
        }
    }

    /// The press of the commanded button.
    pub fn mouse_down(&self) -> (event: Result<InputEvent, RequestError>)
        ensures
            event == match self.commanded_button() {
                Ok(button) => Ok::<InputEvent, RequestError>(InputEvent::ButtonPress(button)),
                Err(e) => Err(e),
            },
    {
        match self.button {
            Some(number) => Ok(InputEvent::ButtonPress(host_button(number))),
            None => Err(RequestError::MissingButton),
        }
    }

    /// The release of the commanded button.
    pub fn mouse_up(&self) -> (event: Result<InputEvent, RequestError>)
        ensures
            event == match self.commanded_button() {
                Ok(button) => Ok::<InputEvent, RequestError>(InputEvent::ButtonRelease(button)),
                Err(e) => Err(e),
            },
    {
        match self.button {
            Some(number) => Ok(InputEvent::ButtonRelease(host_button(number))),
            None => Err(RequestError::MissingButton),
        }
    }

    /// The wheel event of the command.
    pub fn mouse_wheel(&self) -> (event: Result<InputEvent, RequestError>)
        ensures
            event == self.wheel_event(),
    {
        let (delta_x, delta_y) = match (self.delta_x, self.delta_y) {
            (Some(delta_x), Some(delta_y)) => (delta_x, delta_y),
            _ => { return Err(RequestError::MissingDelta); },
        };
        if delta_x == i64::MIN || delta_y == i64::MIN {
            return Err(RequestError::DeltaOutOfRange);
        }
        Ok(InputEvent::Wheel { delta_x: -delta_x, delta_y: -delta_y })
    }

    /// Turns the command into the steps that replay it on the host, or says
    /// why it has none. Nothing is replayed of a command that is refused.
    pub fn process(self, metrics: &HostDisplayMetrics) -> (steps: Result<Vec<Step>, RequestError>)
        ensures
            match steps {
                Ok(list) => self.plan(*metrics) == Ok::<Seq<Step>, RequestError>(list@),
                Err(e) => self.plan(*metrics) == Err::<Seq<Step>, RequestError>(e),
            },
    {
        if self.id > 3 {
            return Err(RequestError::UnknownId);
        }
        let moved = match self.mouse_move(metrics) {
            Ok(event) => event,
            Err(e) => { return Err(e); },
        };
        let mut events: Vec<InputEvent> = Vec::new();
        events.push(moved);
        let action = if self.id == 0 {
            self.mouse_down()
        } else if self.id == 1 {
            self.mouse_up()
        } else if self.id == 3 {
            self.mouse_wheel()
        } else {
            assert(self.action_event() == Ok::<Option<InputEvent>, RequestError>(None));
            assert(events@ =~= seq![moved]);
            return Ok(pace(&events));
        };
        match action {
            Ok(event) => {
                events.push(event);
                assert(events@ =~= seq![moved, event]);
                Ok(pace(&events))
            },
            Err(e) => Err(e),
        }
    }
}

/// A key command as a viewer sends it. `id` 0 presses the key that `code`
/// names, `id` 1 releases it.
#[derive(Clone, Debug)]
pub struct KeyRequest {
    pub id: u8,
    pub code: String,
}

impl KeyRequest {
    /// The event of the command.
    pub open spec fn event(self) -> Result<InputEvent, RequestError> {
        if self.id == 0 {
            Ok(InputEvent::KeyPress(key_for(self.code@)))
        } else if self.id == 1 {
            Ok(InputEvent::KeyRelease(key_for(self.code@)))
        } else {
            Err(RequestError::UnknownId)
        }
    }

    /// The steps that replay the command.
    pub open spec fn plan(self) -> Result<Seq<Step>, RequestError> {
        match self.event() {
            Ok(event) => Ok(paced(seq![event])),
            Err(e) => Err(e),
        }
    }

    /// The press of the key that `code` names.
    pub fn key_down(&self) -> (event: InputEvent)
        ensures
            event == InputEvent::KeyPress(key_for(self.code@)),
    {
        InputEvent::KeyPress(Self::from_key_code(self.code.as_str()))
    }

    /// The release of the key that `code` names.
    pub fn key_up(&self) -> (event: InputEvent)
        ensures
            event == InputEvent::KeyRelease(key_for(self.code@)),
    {
        InputEvent::KeyRelease(Self::from_key_code(self.code.as_str()))
    }

    /// Turns the command into the steps that replay it on the host. A code
    /// that the symbol table does not name is replayed as the unknown key; only
    /// an `id` that names no kind of command is refused.
    pub fn process(self) -> (steps: Result<Vec<Step>, RequestError>)
        ensures
            match steps {
                Ok(list) => self.plan() == Ok::<Seq<Step>, RequestError>(list@),
                Err(e) => self.plan() == Err::<Seq<Step>, RequestError>(e),
            },
    {
        let event = if self.id == 0 {
            self.key_down()
        } else if self.id == 1 {
            self.key_up()
        } else {
            return Err(RequestError::UnknownId);
        };
        let mut events: Vec<InputEvent> = Vec::new();
        events.push(event);
        assert(events@ =~= seq![event]);
        Ok(pace(&events))
    }

    /// Looks a symbolic code up in the symbol table.
    pub fn from_key_code(code: &str) -> (key: Key)
        ensures
            key == key_for(code@),
    {
        proof {
            lemma_table_rows();
        }
        let mut i: usize = 0;
        while i < KEY_TABLE_ROWS
            invariant
                i <= KEY_TABLE_ROWS,
                KEY_TABLE_ROWS == key_table().len(),
                forall|j: int| 0 <= j < i ==> key_table()[j].0 != code@,
            decreases KEY_TABLE_ROWS - i,
        {
            let row = key_table_row(i);
            if same_text(code, row.0) {
                proof {
                    lemma_first_row_decides(code@, i as int);
                }
                return row.1;
            }
            i += 1;
        }
        assert forall|k: int| !resolves_at(code@, k) by {
            if 0 <= k < key_table().len() {
                assert(key_table()[k].0 != code@);
            }
        }
        Key::Unknown(0)
    }
}

} // verus!
