//! Windows: the thread that watches input. It takes things from the system one after the
//! other, serves messages, and gives back what it has taken.

use vstd::prelude::*;

verus! {

/// Something that the thread takes from the system.
#[derive(Clone, Copy, Debug, PartialEq, Eq, Structural)]
pub enum Resource {
    /// Coordinates in the pixels of each display.
    PixelScale,
    /// The window that hides the pointer.
    HiderWindow,
    KeyboardHook,
    MouseHook,
}

/// What the thread does next.
#[derive(Clone, Copy, Debug, PartialEq, Eq, Structural)]
pub enum LoopAction {
    /// Take coordinates in pixels. The thread goes on without them.
    TakePixelScale,
    ReadDisplays,
    CreateHider,
    HookKeyboard,
    HookMouse,
    /// Say that input is watched.
    Announce,
    WaitForMessage,
    /// Free the pointer, should it be held.
    EndCapture,
    Release(Resource),
    /// The thread ends. A start that has failed is reported.
    Finish { started: bool },
}

/// What came of it.
#[derive(Clone, Copy, Debug, PartialEq, Eq, Structural)]
pub enum LoopEvent {
    Begin,
    Succeeded,
    Failed,
    /// The thread is told to stop, or there are no more messages.
    Quit,
}

/// Where the thread stands.
#[derive(Clone, Copy, Debug, PartialEq, Eq, Structural)]
pub enum LoopStage {
    Idle,
    Scaling,
    Reading,
    Hiding,
    HookingKeyboard,
    HookingMouse,
    Announcing,
    Serving,
    Ending,
    Cleaning,
    Finished,
}

/// The thread that watches input.
#[derive(Clone, Copy, Debug, PartialEq, Eq, Structural)]
pub struct MessageLoop {
    pub stage: LoopStage,
    pub scale: bool,
    pub hider: bool,
    pub keyboard: bool,
    pub mouse: bool,
    pub started: bool,
}

impl MessageLoop {
    /// Whether something taken from the system was not given back yet.
    pub open spec fn holds(self, resource: Resource) -> bool {
        match resource {
            Resource::PixelScale => self.scale,
            Resource::HiderWindow => self.hider,
            Resource::KeyboardHook => self.keyboard,
            Resource::MouseHook => self.mouse,
        }
    }

    pub open spec fn holds_nothing(self) -> bool {
        !self.scale && !self.hider && !self.keyboard && !self.mouse
    }

    /// Whether the thread holds what it has at its stage.
    pub open spec fn sound(self) -> bool {
        &&& self.stage is Idle || self.stage is Scaling ==> self.holds_nothing()
        &&& self.stage is Reading || self.stage is Hiding ==> !self.hider && !self.keyboard
            && !self.mouse
        &&& self.stage is HookingKeyboard ==> self.hider && !self.keyboard && !self.mouse
        &&& self.stage is HookingMouse ==> self.hider && !self.mouse
        &&& self.stage is Announcing || self.stage is Serving || self.stage is Ending
            ==> self.hider && self.keyboard && self.mouse
        &&& self.stage is Finished ==> self.holds_nothing()
        &&& self.started ==> self.stage is Serving || self.stage is Ending || self.stage is Cleaning
            || self.stage is Finished
    }

    /// The next thing to give back, in this order: the hooks, the window, the scale.
    pub open spec fn next_release(self) -> Option<Resource> {
        if self.keyboard {
            Some(Resource::KeyboardHook)
        } else if self.mouse {
            Some(Resource::MouseHook)
        } else if self.hider {
            Some(Resource::HiderWindow)
        } else if self.scale {
            Some(Resource::PixelScale)
        } else {
            None
        }
    }

    /// Without one thing that was taken.
    pub open spec fn released(self, resource: Resource) -> MessageLoop {
        match resource {
            Resource::PixelScale => MessageLoop { scale: false, ..self },
            Resource::HiderWindow => MessageLoop { hider: false, ..self },
            Resource::KeyboardHook => MessageLoop { keyboard: false, ..self },
            Resource::MouseHook => MessageLoop { mouse: false, ..self },
        }
    }

    /// Giving back goes on, or is over.
    pub open spec fn cleaned(self) -> (MessageLoop, LoopAction) {
        match self.next_release() {
            Some(resource) => (
                MessageLoop { stage: LoopStage::Cleaning, ..self.released(resource) },
                LoopAction::Release(resource),
            ),
            None => (
                MessageLoop { stage: LoopStage::Finished, ..self },
                LoopAction::Finish { started: self.started },
            ),
        }
    }

    /// The next step, and the state after it.
    pub open spec fn step(self, event: LoopEvent) -> (MessageLoop, LoopAction) {
        let ok = event is Succeeded;
        match self.stage {
            LoopStage::Idle => (
                MessageLoop { stage: LoopStage::Scaling, ..self },
                LoopAction::TakePixelScale,
            ),
            LoopStage::Scaling => (
                MessageLoop { stage: LoopStage::Reading, scale: ok, ..self },
                LoopAction::ReadDisplays,
            ),
            LoopStage::Reading => if ok {
                (MessageLoop { stage: LoopStage::Hiding, ..self }, LoopAction::CreateHider)
            } else {
                self.cleaned()
            },
            LoopStage::Hiding => if ok {
                (
                    MessageLoop { stage: LoopStage::HookingKeyboard, hider: true, ..self },
                    LoopAction::HookKeyboard,
                )
            } else {
                self.cleaned()
            },
            LoopStage::HookingKeyboard => (
                MessageLoop { stage: LoopStage::HookingMouse, keyboard: ok, ..self },
                LoopAction::HookMouse,
            ),
            LoopStage::HookingMouse => {
                let hooked = MessageLoop { mouse: ok, ..self };
                if hooked.keyboard && hooked.mouse {
                    (MessageLoop { stage: LoopStage::Announcing, ..hooked }, LoopAction::Announce)
                } else {
                    hooked.cleaned()
                }
            },
            LoopStage::Announcing => (
                MessageLoop { stage: LoopStage::Serving, started: true, ..self },
                LoopAction::WaitForMessage,
            ),
            LoopStage::Serving => if ok {
                (self, LoopAction::WaitForMessage)
            } else {
                (MessageLoop { stage: LoopStage::Ending, ..self }, LoopAction::EndCapture)
            },
            LoopStage::Ending => self.cleaned(),
            LoopStage::Cleaning => self.cleaned(),
            LoopStage::Finished => (self, LoopAction::Finish { started: self.started }),
        }
    }

    pub fn new() -> (r: Self)
        ensures
            r == (MessageLoop {
                stage: LoopStage::Idle,
                scale: false,
                hider: false,
                keyboard: false,
                mouse: false,
                started: false,
            }),
            r.sound(),
    {
        MessageLoop {
            stage: LoopStage::Idle,
            scale: false,
            hider: false,
            keyboard: false,
            mouse: false,
            started: false,
        }
    }

    fn clean(&mut self) -> (r: LoopAction)
        ensures
            (*final(self), r) == old(self).cleaned(),
    {
        if self.keyboard {
            self.keyboard = false;
            self.stage = LoopStage::Cleaning;
            return LoopAction::Release(Resource::KeyboardHook);
        }
        if self.mouse {
            self.mouse = false;
            self.stage = LoopStage::Cleaning;
            return LoopAction::Release(Resource::MouseHook);
        }
        if self.hider {
            self.hider = false;
            self.stage = LoopStage::Cleaning;
            return LoopAction::Release(Resource::HiderWindow);
        }
        if self.scale {
            self.scale = false;
            self.stage = LoopStage::Cleaning;
            return LoopAction::Release(Resource::PixelScale);
        }
        self.stage = LoopStage::Finished;
        LoopAction::Finish { started: self.started }
    }

    /// Something has come of the last step. Gives the next one.
    pub fn run_message_loop(&mut self, event: LoopEvent) -> (r: LoopAction)
        requires
            old(self).sound(),
        ensures
            (*final(self), r) == old(self).step(event),
            final(self).sound(),
    {
        let ok = event == LoopEvent::Succeeded;
        match self.stage {
            LoopStage::Idle => {
                self.stage = LoopStage::Scaling;
                LoopAction::TakePixelScale
            },
            LoopStage::Scaling => {
                self.scale = ok;
                self.stage = LoopStage::Reading;
                LoopAction::ReadDisplays
            },
            LoopStage::Reading => {
                if !ok {
                    return self.clean();
                }
                self.stage = LoopStage::Hiding;
                LoopAction::CreateHider
            },
            LoopStage::Hiding => {
                if !ok {
                    return self.clean();
                }
                self.hider = true;
                self.stage = LoopStage::HookingKeyboard;
                LoopAction::HookKeyboard
            },
            LoopStage::HookingKeyboard => {
                self.keyboard = ok;
                self.stage = LoopStage::HookingMouse;
                LoopAction::HookMouse
            },
            LoopStage::HookingMouse => {
                self.mouse = ok;
                if !self.keyboard || !self.mouse {
                    return self.clean();
                }
                self.stage = LoopStage::Announcing;
                LoopAction::Announce
            },
            LoopStage::Announcing => {
                self.started = true;
                self.stage = LoopStage::Serving;
                LoopAction::WaitForMessage
            },
            LoopStage::Serving => {
                if ok {
                    return LoopAction::WaitForMessage;
                }
                self.stage = LoopStage::Ending;
                LoopAction::EndCapture
            },
            LoopStage::Ending | LoopStage::Cleaning => self.clean(),
            LoopStage::Finished => LoopAction::Finish { started: self.started },
        }
    }
}

/// The thread ends with nothing of the system left in its hands.
pub proof fn everything_is_given_back(state: MessageLoop, event: LoopEvent)
    requires
        state.sound(),
        state.step(event).1 is Finish,
    ensures
        state.step(event).0.holds_nothing(),
{
}

/// Nothing is given back that was not taken.
pub proof fn only_what_was_taken_is_given_back(state: MessageLoop, event: LoopEvent, resource: Resource)
    requires
        state.step(event).1 == LoopAction::Release(resource),
    ensures
        state.holds(resource) || (resource is MouseHook && state.stage is HookingMouse && event
            is Succeeded),
        !state.step(event).0.holds(resource),
{
}

/// Input is watched only with both hooks in place.
pub proof fn watching_needs_both_hooks(state: MessageLoop, event: LoopEvent)
    requires
        state.sound(),
        state.step(event).1 is Announce,
    ensures
        state.step(event).0.keyboard,
        state.step(event).0.mouse,
        state.step(event).0.hider,
{
}

/// How much of the way to the end is left once the thread gives back what it holds.
pub open spec fn steps_left(state: MessageLoop) -> nat {
    (if state.keyboard { 1nat } else { 0 }) + (if state.mouse { 1nat } else { 0 }) + (if state.hider {
        1nat
    } else {
        0
    }) + (if state.scale { 1nat } else { 0 })
}

/// Giving back comes to an end.
pub proof fn giving_back_ends(state: MessageLoop, event: LoopEvent)
    requires
        state.stage is Cleaning,
    ensures
        state.step(event).1 is Finish || steps_left(state.step(event).0) < steps_left(state),
{
}

/// What the thread asks for and gets, it holds: the next step says so. What it asks for and does
/// not get, it does not hold.
pub proof fn what_was_taken_is_held(state: MessageLoop, event: LoopEvent, got: LoopEvent)
    requires
        state.sound(),
    ensures
        ({
            let (asking, action) = state.step(event);
            let (after, next) = asking.step(got);
            &&& action is TakePixelScale ==> after.holds(Resource::PixelScale) == (got is Succeeded)
            &&& action is CreateHider ==> after.holds(Resource::HiderWindow) == (got is Succeeded)
            &&& action is HookKeyboard ==> after.holds(Resource::KeyboardHook) == (got
                is Succeeded)
            &&& action is HookMouse && got is Succeeded ==> after.holds(Resource::MouseHook) || next
                == LoopAction::Release(Resource::MouseHook)
            &&& action is HookMouse && !(got is Succeeded) ==> !after.holds(Resource::MouseHook)
        }),
{
}

/// Giving something back is what ends holding it, and touches nothing else.
pub proof fn giving_back_is_of_one_thing(
    state: MessageLoop,
    event: LoopEvent,
    resource: Resource,
    other: Resource,
)
    requires
        state.sound(),
        state.step(event).1 == LoopAction::Release(resource),
    ensures
        !state.step(event).0.holds(resource),
        other != resource && !(state.stage is HookingMouse) ==> state.step(event).0.holds(other)
            == state.holds(other),
        state.step(event).0.stage is Cleaning,
        state.step(event).0.started == state.started,
{
}

/// Messages are served until one says to stop. Then the pointer is freed before anything is given
/// back.
pub proof fn pointer_is_freed_before_giving_back(state: MessageLoop, event: LoopEvent)
    requires
        state.stage is Serving,
    ensures
        event is Succeeded ==> state.step(event) == (state, LoopAction::WaitForMessage),
        !(event is Succeeded) ==> state.step(event).1 is EndCapture && (forall|resource: Resource|
            state.step(event).0.holds(resource) == #[trigger] state.holds(resource)),
{
}

/// A thread has started exactly if it came to say so, and what it reports at its end is whether
/// it has.
pub proof fn start_is_reported_as_it_was(state: MessageLoop, event: LoopEvent)
    requires
        state.sound(),
    ensures
        ({
            let (next, action) = state.step(event);
            &&& next.started <==> state.started || state.stage is Announcing
            &&& action is Announce ==> next.stage is Announcing
            &&& next.stage is Announcing ==> action is Announce
            &&& action matches LoopAction::Finish { started } ==> started == state.started
                && !next.scale && !next.hider && !next.keyboard && !next.mouse
        }),
{
}

} // verus!
