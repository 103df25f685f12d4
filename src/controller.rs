use crate::cache::{after_request, ValueCache};
use crate::interp::{Mapping, Value};
use vstd::prelude::*;

verus! {

/// `v` held to `[lo, hi]`.
pub open spec fn clamp(v: int, lo: int, hi: int) -> int {
    if v < lo {
        lo
    } else if v > hi {
        hi
    } else {
        v
    }
}

/// The fill position `fill + delta`, held to `[0, width]`.
pub fn clamp_fill(fill: i32, delta: i32, width: u32) -> (r: i32)
    requires
        width <= i32::MAX,
    ensures
        r == clamp(fill + delta, 0, width as int),
        0 <= r <= width,
{
    let v: i64 = fill as i64 + delta as i64;
    if v < 0 {
        0
    } else if v > width as i64 {
        width as i32
    } else {
        v as i32
    }
}

/// An input event, as far as the slider cares.
#[derive(Clone, Copy, Debug, PartialEq, Eq, Structural)]
pub enum Input {
    /// The window was closed.
    Quit,
    /// The escape key.
    Escape,
    /// A press of the left mouse button.
    LeftClick,
    /// The return key.
    Confirm,
    /// Anything else.
    Other,
}

/// What the caller does after an input event.
#[derive(Clone, Copy, Debug, PartialEq, Eq, Structural)]
pub enum Reaction {
    /// Keep running.
    Continue,
    /// Stop without printing anything.
    Cancel,
    /// Print the value and stop.
    Print(Value),
    /// Run the on-click command with the value and keep running.
    RunClickCommand(Value),
}

/// What one frame asks of the caller.
#[derive(Clone, Copy, Debug, PartialEq, Eq, Structural)]
pub struct Frame {
    /// Whether the bar is drawn again.
    pub redraw: bool,
    /// The fill position to draw.
    pub fill: i32,
    /// The new value, where it differs from the last one reported and
    /// changes are tracked (for a command or the title).
    pub changed: Option<Value>,
}

/// The slider's state between frames.
pub struct Controller {
    cache: ValueCache,
    fill: i32,
    initial: i32,
    first_frame: bool,
    captured: bool,
    click_command: bool,
    track_changes: bool,
    last: Option<Value>,
}

impl Controller {
    pub closed spec fn cache(&self) -> ValueCache {
        self.cache
    }

    pub closed spec fn mapping(&self) -> Mapping {
        self.cache.mapping()
    }

    /// The current fill position.
    pub closed spec fn fill(&self) -> int {
        self.fill as int
    }

    /// The fill position of the first frame.
    pub closed spec fn initial(&self) -> int {
        self.initial as int
    }

    /// Whether no frame has been drawn yet.
    pub closed spec fn first_frame(&self) -> bool {
        self.first_frame
    }

    /// Whether the pointer moves the bar by relative motion.
    pub closed spec fn captured(&self) -> bool {
        self.captured
    }

    /// Whether a click runs a command rather than printing and stopping.
    pub closed spec fn click_command(&self) -> bool {
        self.click_command
    }

    /// Whether value changes are reported.
    pub closed spec fn track_changes(&self) -> bool {
        self.track_changes
    }

    /// The value last reported as changed.
    pub closed spec fn last(&self) -> Option<Value> {
        self.last
    }

    /// The fill position always lies in `[0, width]`.
    pub open spec fn wf(&self) -> bool {
        &&& self.cache().wf()
        &&& 0 <= self.fill() <= self.mapping().width
        &&& 0 <= self.initial() <= self.mapping().width
    }

    /// The value of the current fill position.
    pub open spec fn current(&self) -> Value {
        self.mapping().mapped(self.fill())
    }

    /// Whether a frame with this pointer motion draws again.
    pub open spec fn needs_redraw(&self, delta: i32, pointer_x: i32) -> bool {
        ||| self.first_frame()
        ||| delta != 0
        ||| (!self.captured() && clamp(pointer_x as int, 0, self.mapping().width as int)
            != self.fill())
    }

    /// The fill position after a frame that draws again.
    pub open spec fn next_fill(&self, delta: i32, pointer_x: i32) -> int {
        if self.first_frame() {
            self.initial()
        } else if !self.captured() {
            clamp(pointer_x as int, 0, self.mapping().width as int)
        } else {
            clamp(self.fill() + delta, 0, self.mapping().width as int)
        }
    }

    /// A slider over `mapping` whose first frame fills `initial` pixels,
    /// held to `[0, width]`. Before that frame the fill is zero.
    pub fn new(
        mapping: Mapping,
        initial: i32,
        captured: bool,
        click_command: bool,
        track_changes: bool,
    ) -> (r: Controller)
        requires
            mapping.wf(),
        ensures
            r.wf(),
            r.mapping() == mapping,
            r.cache().entries() == Map::<i32, Value>::empty(),
            r.fill() == 0,
            r.initial() == clamp(initial as int, 0, mapping.width as int),
            r.first_frame(),
            r.captured() == captured,
            r.click_command() == click_command,
            r.track_changes() == track_changes,
            r.last() is None,
    {
        Controller {
            cache: ValueCache::new(mapping),
            fill: 0,
            initial: clamp_fill(initial, 0, mapping.width),
            first_frame: true,
            captured,
            click_command,
            track_changes,
            last: None,
        }
    }

    /// The current fill position.
    pub fn fill_position(&self) -> (r: i32)
        ensures
            r == self.fill(),
    {
        self.fill
    }

    /// Reacts to one input event. Quit and escape cancel; a left click runs
    /// the on-click command where there is one, else prints and stops;
    /// return prints and stops. Only the cache changes.
    pub fn handle(&mut self, input: Input) -> (r: Reaction)
        requires
            old(self).wf(),
        ensures
            final(self).wf(),
            final(self).fill() == old(self).fill(),
            final(self).initial() == old(self).initial(),
            final(self).first_frame() == old(self).first_frame(),
            final(self).captured() == old(self).captured(),
            final(self).click_command() == old(self).click_command(),
            final(self).track_changes() == old(self).track_changes(),
            final(self).last() == old(self).last(),
            final(self).mapping() == old(self).mapping(),
            r == (match input {
                Input::Quit | Input::Escape => Reaction::Cancel,
                Input::LeftClick => if old(self).click_command() {
                    Reaction::RunClickCommand(old(self).current())
                } else {
                    Reaction::Print(old(self).current())
                },
                Input::Confirm => Reaction::Print(old(self).current()),
                Input::Other => Reaction::Continue,
            }),
            match input {
                Input::LeftClick | Input::Confirm => final(self).cache().entries() == after_request(
                    old(self).cache().entries(),
                    old(self).mapping(),
                    old(self).fill() as i32,
                ),
                _ => final(self).cache() == old(self).cache(),
            },
    {
        match input {
            Input::Quit | Input::Escape => Reaction::Cancel,
            Input::LeftClick => {
                let v = self.cache.value(self.fill);
                if self.click_command {
                    Reaction::RunClickCommand(v)
                } else {
                    Reaction::Print(v)
                }
            },
            Input::Confirm => Reaction::Print(self.cache.value(self.fill)),
            Input::Other => Reaction::Continue,
        }
    }

    /// Runs one frame: `delta` is the pointer's relative motion since the
    /// last frame, `pointer_x` its position in the window. Where the bar is
    /// drawn again the fill moves to `next_fill`, and with change tracking a
    /// value other than the last one reported is reported and remembered.
    pub fn frame(&mut self, delta: i32, pointer_x: i32) -> (r: Frame)
        requires
            old(self).wf(),
        ensures
            final(self).wf(),
            final(self).mapping() == old(self).mapping(),
            final(self).initial() == old(self).initial(),
            final(self).captured() == old(self).captured(),
            final(self).click_command() == old(self).click_command(),
            final(self).track_changes() == old(self).track_changes(),
            r.redraw == old(self).needs_redraw(delta, pointer_x),
            r.fill == final(self).fill(),
            !r.redraw ==> final(self).fill() == old(self).fill() && final(self).first_frame()
                == old(self).first_frame() && final(self).last() == old(self).last() && r.changed
                is None,
            r.redraw ==> {
                let v = old(self).mapping().mapped(final(self).fill());
                &&& final(self).fill() == old(self).next_fill(delta, pointer_x)
                &&& !final(self).first_frame()
                &&& if old(self).track_changes() && old(self).last() != Some(v) {
                    r.changed == Some(v) && final(self).last() == Some(v)
                } else {
                    r.changed is None && final(self).last() == old(self).last()
                }
            },
    {
        let width = self.cache.mapping_of().width;
        let pointer = clamp_fill(pointer_x, 0, width);
        let redraw = self.first_frame || delta != 0 || (!self.captured && pointer != self.fill);
        if !redraw {
            return Frame { redraw: false, fill: self.fill, changed: None };
        }
        if self.first_frame {
            self.first_frame = false;
            self.fill = self.initial;
        } else if !self.captured {
            self.fill = pointer;
        } else {
            self.fill = clamp_fill(self.fill, delta, width);
        }
        let mut changed: Option<Value> = None;
        if self.track_changes {
            let v = self.cache.value(self.fill);
            if self.last != Some(v) {
                self.last = Some(v);
                changed = Some(v);
            }
        }
        Frame { redraw: true, fill: self.fill, changed }
    }
}

} // verus!
