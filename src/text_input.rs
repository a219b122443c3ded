use vstd::prelude::*;

use crate::object::ObjectKey;

verus! {

/// One client-side text-input object, with its commit serial and whether a
/// commit is waiting for its `done` event.
#[derive(Clone, Copy, Debug, PartialEq, Eq, Structural)]
pub struct Instance {
    pub instance: ObjectKey,
    pub serial: u32,
    pub ready: bool,
}

/// The abstract state of a seat's text inputs: every instance, in the order
/// they were bound, and the surface that holds the focus, if any.
pub struct TextInputState {
    pub instances: Seq<Instance>,
    pub focus: Option<ObjectKey>,
}

/// The seat-wide record of text-input instances and of the focused surface.
///
/// The focused surface is not owned: before any use of it the caller says
/// whether it is still alive, and a dead focus counts as no focus.
#[derive(Debug)]
pub struct TextInputHandle {
    instances: Vec<Instance>,
    focus: Option<ObjectKey>,
}

/// A value of a protocol enumeration as received: one the protocol defines,
/// or one it does not know.
#[derive(Clone, Copy, Debug, PartialEq, Eq, Structural)]
pub enum Enumerant {
    Known(u32),
    Unknown(u32),
}

/// A request of a client's text-input object.
#[derive(Clone, Debug, PartialEq, Eq)]
pub enum TextInputRequest {
    Enable,
    Disable,
    SetSurroundingText { text: String, cursor: i32, anchor: i32 },
    SetTextChangeCause { cause: Enumerant },
    SetContentType { hint: Enumerant, purpose: Enumerant },
    SetCursorRectangle { x: i32, y: i32, width: i32, height: i32 },
    Commit,
    Destroy,
}

/// A call to be made on the seat's input method, in the order given.
#[derive(Clone, Debug, PartialEq, Eq)]
pub enum RelayAction {
    SurroundingText { text: String, cursor: u32, anchor: u32 },
    TextChangeCause { cause: u32 },
    ContentType { hint: u32, purpose: u32 },
    SetTextInputRectangle { x: i32, y: i32, width: i32, height: i32 },
    Deactivate,
    Done,
}

/// Why a text-input request was refused.
#[derive(Clone, Copy, Debug, PartialEq, Eq, Structural)]
pub enum TextInputError {
    /// The request carried a value that its enumeration does not define.
    UnknownEnumerant { value: u32 },
}

/// The serial that follows `s`; it wraps to 0 after the largest `u32`.
pub open spec fn next_serial(s: u32) -> u32 {
    if s == u32::MAX {
        0
    } else {
        (s + 1) as u32
    }
}

/// The client whose instances receive focused events: the focus surface's
/// client, provided that the surface is alive.
pub open spec fn focused_client(s: TextInputState, focus_alive: bool) -> Option<u64> {
    if focus_alive && s.focus.is_some() {
        Some(s.focus.unwrap().client)
    } else {
        None
    }
}

/// The instances of `client`, in order.
pub open spec fn client_targets(insts: Seq<Instance>, client: u64) -> Seq<ObjectKey>
    decreases insts.len(),
{
    if insts.len() == 0 {
        seq![]
    } else {
        let rest = client_targets(insts.drop_last(), client);
        if insts.last().instance.client == client {
            rest.push(insts.last().instance)
        } else {
            rest
        }
    }
}

/// The serials of the instances of `client`, in order.
pub open spec fn client_serials(insts: Seq<Instance>, client: u64) -> Seq<u32>
    decreases insts.len(),
{
    if insts.len() == 0 {
        seq![]
    } else {
        let rest = client_serials(insts.drop_last(), client);
        if insts.last().instance.client == client {
            rest.push(insts.last().serial)
        } else {
            rest
        }
    }
}

/// The ready instances of `client` with their serials, in order.
pub open spec fn ready_targets(insts: Seq<Instance>, client: u64) -> Seq<(ObjectKey, u32)>
    decreases insts.len(),
{
    if insts.len() == 0 {
        seq![]
    } else {
        let rest = ready_targets(insts.drop_last(), client);
        let i = insts.last();
        if i.instance.client == client && i.ready {
            rest.push((i.instance, i.serial))
        } else {
            rest
        }
    }
}

/// The instances other than `ti`, in order.
pub open spec fn without(insts: Seq<Instance>, ti: ObjectKey) -> Seq<Instance>
    decreases insts.len(),
{
    if insts.len() == 0 {
        seq![]
    } else {
        let rest = without(insts.drop_last(), ti);
        if insts.last().instance != ti {
            rest.push(insts.last())
        } else {
            rest
        }
    }
}

/// An instance after a commit of `ti`.
pub open spec fn bumped(i: Instance, ti: ObjectKey) -> Instance {
    if i.instance == ti {
        Instance { instance: i.instance, serial: next_serial(i.serial), ready: true }
    } else {
        i
    }
}

/// An instance after a `done` for the focused `client`.
pub open spec fn acknowledged(i: Instance, client: u64) -> Instance {
    if i.instance.client == client {
        Instance { instance: i.instance, serial: i.serial, ready: false }
    } else {
        i
    }
}

/// The state after a commit of `ti`.
pub open spec fn committed(s: TextInputState, ti: ObjectKey) -> TextInputState {
    TextInputState { instances: s.instances.map_values(|i: Instance| bumped(i, ti)), focus: s.focus }
}

/// The state after a `done`.
pub open spec fn after_done(s: TextInputState, focus_alive: bool) -> TextInputState {
    match focused_client(s, focus_alive) {
        None => s,
        Some(c) => TextInputState {
            instances: s.instances.map_values(|i: Instance| acknowledged(i, c)),
            focus: s.focus,
        },
    }
}

/// The `done` events that a `done` sends: to each ready focused instance,
/// with its current serial.
pub open spec fn done_events(s: TextInputState, focus_alive: bool) -> Seq<(ObjectKey, u32)> {
    match focused_client(s, focus_alive) {
        None => seq![],
        Some(c) => ready_targets(s.instances, c),
    }
}

/// The focused instances.
pub open spec fn focused_targets(s: TextInputState, focus_alive: bool) -> Seq<ObjectKey> {
    match focused_client(s, focus_alive) {
        None => seq![],
        Some(c) => client_targets(s.instances, c),
    }
}

/// The serials of the focused instances.
pub open spec fn focused_serials(s: TextInputState, focus_alive: bool) -> Seq<u32> {
    match focused_client(s, focus_alive) {
        None => seq![],
        Some(c) => client_serials(s.instances, c),
    }
}

/// The state after the instance `ti` is removed.
pub open spec fn removed(s: TextInputState, ti: ObjectKey) -> TextInputState {
    TextInputState { instances: without(s.instances, ti), focus: s.focus }
}

/// What the input method is to be told for a request, or why the request
/// is refused.
pub open spec fn relay_for(request: TextInputRequest) -> Result<Seq<RelayAction>, TextInputError> {
    match request {
        TextInputRequest::SetSurroundingText { text, cursor, anchor } => Ok(
            seq![RelayAction::SurroundingText { text, cursor: cursor as u32, anchor: anchor as u32 }],
        ),
        TextInputRequest::SetTextChangeCause { cause } => match cause {
            Enumerant::Known(c) => Ok(seq![RelayAction::TextChangeCause { cause: c }]),
            Enumerant::Unknown(v) => Err(TextInputError::UnknownEnumerant { value: v }),
        },
        TextInputRequest::SetContentType { hint, purpose } => match (hint, purpose) {
            (Enumerant::Known(h), Enumerant::Known(p)) => Ok(
                seq![RelayAction::ContentType { hint: h, purpose: p }],
            ),
            (Enumerant::Unknown(v), _) => Err(TextInputError::UnknownEnumerant { value: v }),
            (Enumerant::Known(_), Enumerant::Unknown(v)) => Err(
                TextInputError::UnknownEnumerant { value: v },
            ),
        },
        TextInputRequest::SetCursorRectangle { x, y, width, height } => Ok(
            seq![RelayAction::SetTextInputRectangle { x, y, width, height }],
        ),
        TextInputRequest::Commit => Ok(seq![RelayAction::Done]),
        _ => Ok(seq![]),
    }
}

/// The state after a request of `resource`.
pub open spec fn after_request(
    s: TextInputState,
    resource: ObjectKey,
    request: TextInputRequest,
) -> TextInputState {
    match request {
        TextInputRequest::Commit => committed(s, resource),
        _ => s,
    }
}

impl View for TextInputHandle {
    type V = TextInputState;

    closed spec fn view(&self) -> TextInputState {
        TextInputState { instances: self.instances@, focus: self.focus }
    }
}

impl Default for TextInputHandle {
    fn default() -> (r: TextInputHandle)
        ensures
            r@.instances == Seq::<Instance>::empty(),
            r@.focus.is_none(),
    {
        TextInputHandle::new()
    }
}

impl TextInputHandle {
    /// A record with no instance and no focus.
    pub fn new() -> (r: TextInputHandle)
        ensures
            r@.instances == Seq::<Instance>::empty(),
            r@.focus.is_none(),
    {
        TextInputHandle { instances: Vec::new(), focus: None }
    }

    /// The client of the focused surface, if it is alive.
    fn focused_client(&self, focus_alive: bool) -> (r: Option<u64>)
        ensures
            r == focused_client(self@, focus_alive),
    {
        match self.focus {
            Some(surface) => if focus_alive {
                Some(surface.client)
            } else {
                None
            },
            None => None,
        }
    }

    /// The instances of `client`, in order.
    fn targets_of(&self, client: u64) -> (r: Vec<ObjectKey>)
        ensures
            r@ == client_targets(self@.instances, client),
    {
        let mut out: Vec<ObjectKey> = Vec::new();
        let mut i: usize = 0;
        while i < self.instances.len()
            invariant
                0 <= i <= self.instances.len(),
                out@ == client_targets(self.instances@.take(i as int), client),
            decreases self.instances.len() - i,
        {
            proof {
                assert(self.instances@.take(i as int + 1).drop_last() =~= self.instances@.take(
                    i as int,
                ));
            }
            let inst = self.instances[i];
            if inst.instance.client == client {
                out.push(inst.instance);
            }
            i += 1;
        }
        proof {
            assert(self.instances@.take(i as int) =~= self.instances@);
        }
        out
    }

    /// The serials of the instances of `client`, in order.
    fn serials_of(&self, client: u64) -> (r: Vec<u32>)
        ensures
            r@ == client_serials(self@.instances, client),
    {
        let mut out: Vec<u32> = Vec::new();
        let mut i: usize = 0;
        while i < self.instances.len()
            invariant
                0 <= i <= self.instances.len(),
                out@ == client_serials(self.instances@.take(i as int), client),
            decreases self.instances.len() - i,
        {
            proof {
                assert(self.instances@.take(i as int + 1).drop_last() =~= self.instances@.take(
                    i as int,
                ));
            }
            let inst = self.instances[i];
            if inst.instance.client == client {
                out.push(inst.serial);
            }
            i += 1;
        }
        proof {
            assert(self.instances@.take(i as int) =~= self.instances@);
        }
        out
    }

    /// Records a newly bound text-input object, with serial 0 and not ready.
    pub fn add_instance(&mut self, instance: ObjectKey)
        ensures
            final(self)@.instances == old(self)@.instances.push(
                Instance { instance, serial: 0, ready: false },
            ),
            final(self)@.focus == old(self)@.focus,
    {
        self.instances.push(Instance { instance, serial: 0, ready: false });
    }
}


impl TextInputHandle {
    /// Records a commit of `text_input`: its serial goes to the next one and
    /// it becomes ready. Other instances are unchanged.
    pub fn increment_serial(&mut self, text_input: ObjectKey)
        ensures
            final(self)@ == committed(old(self)@, text_input),
    {
        let ghost s0 = self@;
        let mut i: usize = 0;
        while i < self.instances.len()
            invariant
                self.focus == s0.focus,
                self.instances.len() == s0.instances.len(),
                0 <= i <= self.instances.len(),
                forall|j: int| 0 <= j < i ==> self.instances@[j] == bumped(s0.instances[j], text_input),
                forall|j: int| i <= j < self.instances.len() ==> self.instances@[j] == s0.instances[j],
            decreases self.instances.len() - i,
        {
            let inst = self.instances[i];
            if inst.instance == text_input {
                let serial: u32 = if inst.serial == u32::MAX {
                    0
                } else {
                    inst.serial + 1
                };
                self.instances.set(i, Instance { instance: inst.instance, serial, ready: true });
            }
            i += 1;
        }
        proof {
            assert(self.instances@ =~= s0.instances.map_values(|x: Instance| bumped(x, text_input)));
        }
    }

    /// Every instance, in the order they were bound.
    pub fn instances(&self) -> (r: Vec<Instance>)
        ensures
            r@ == self@.instances,
    {
        let mut out: Vec<Instance> = Vec::new();
        let mut i: usize = 0;
        while i < self.instances.len()
            invariant
                0 <= i <= self.instances.len(),
                out@ == self.instances@.take(i as int),
            decreases self.instances.len() - i,
        {
            out.push(self.instances[i]);
            i += 1;
            proof {
                assert(out@ =~= self.instances@.take(i as int));
            }
        }
        proof {
            assert(self.instances@.take(i as int) =~= self.instances@);
        }
        out
    }

    /// The surface that holds the focus, alive or not.
    pub fn focus(&self) -> (r: Option<ObjectKey>)
        ensures
            r == self@.focus,
    {
        self.focus
    }

    /// Forgets the focus.
    pub fn clear_focus(&mut self)
        ensures
            final(self)@.instances == old(self)@.instances,
            final(self)@.focus.is_none(),
    {
        self.focus = None;
    }

    /// The focus leaves `surface`: returns the instances of its client, each
    /// of which is to be sent a `leave` for `surface`. The focus itself is
    /// left as it is.
    pub fn leave(&self, surface: &ObjectKey) -> (r: Vec<ObjectKey>)
        ensures
            r@ == client_targets(self@.instances, surface.client),
    {
        self.targets_of(surface.client)
    }

    /// The focus enters `surface`: it becomes the focus, and the instances of
    /// its client are returned, each of which is to be sent an `enter` for
    /// `surface`.
    pub fn enter(&mut self, surface: &ObjectKey) -> (r: Vec<ObjectKey>)
        ensures
            final(self)@.instances == old(self)@.instances,
            final(self)@.focus == Some(*surface),
            r@ == client_targets(old(self)@.instances, surface.client),
    {
        self.focus = Some(*surface);
        self.targets_of(surface.client)
    }

    /// Acknowledges the focused instances that are ready: each is no longer
    /// ready and is returned with its current serial, to be sent `done` with
    /// it. `focus_alive` tells whether the focus surface is still alive.
    pub fn done(&mut self, focus_alive: bool) -> (r: Vec<(ObjectKey, u32)>)
        ensures
            final(self)@ == after_done(old(self)@, focus_alive),
            r@ == done_events(old(self)@, focus_alive),
    {
        let ghost s0 = self@;
        let mut out: Vec<(ObjectKey, u32)> = Vec::new();
        let client = match self.focused_client(focus_alive) {
            Some(c) => c,
            None => {
                return out;
            },
        };
        let mut i: usize = 0;
        while i < self.instances.len()
            invariant
                self.focus == s0.focus,
                self.instances.len() == s0.instances.len(),
                0 <= i <= self.instances.len(),
                forall|j: int| 0 <= j < i ==> self.instances@[j] == acknowledged(s0.instances[j], client),
                forall|j: int| i <= j < self.instances.len() ==> self.instances@[j] == s0.instances[j],
                out@ == ready_targets(s0.instances.take(i as int), client),
            decreases self.instances.len() - i,
        {
            proof {
                assert(s0.instances.take(i as int + 1).drop_last() =~= s0.instances.take(i as int));
            }
            let inst = self.instances[i];
            if inst.instance.client == client {
                if inst.ready {
                    out.push((inst.instance, inst.serial));
                }
                self.instances.set(i, Instance { instance: inst.instance, serial: inst.serial, ready: false });
            }
            i += 1;
        }
        proof {
            assert(self.instances@ =~= s0.instances.map_values(|x: Instance| acknowledged(x, client)));
            assert(s0.instances.take(i as int) =~= s0.instances);
        }
        out
    }

    /// The focused instances; the focus surface itself is `focus()`.
    pub fn with_focused_text_input(&self, focus_alive: bool) -> (r: Vec<ObjectKey>)
        ensures
            r@ == focused_targets(self@, focus_alive),
    {
        match self.focused_client(focus_alive) {
            Some(c) => self.targets_of(c),
            None => Vec::new(),
        }
    }

    /// The serials of the focused instances.
    pub fn focused_text_input_serial(&self, focus_alive: bool) -> (r: Vec<u32>)
        ensures
            r@ == focused_serials(self@, focus_alive),
    {
        match self.focused_client(focus_alive) {
            Some(c) => self.serials_of(c),
            None => Vec::new(),
        }
    }

    /// Forgets the instance `ti`.
    pub fn remove_instance(&mut self, ti: &ObjectKey)
        ensures
            final(self)@ == removed(old(self)@, *ti),
    {
        let mut kept: Vec<Instance> = Vec::new();
        let mut i: usize = 0;
        while i < self.instances.len()
            invariant
                0 <= i <= self.instances.len(),
                kept@ == without(self.instances@.take(i as int), *ti),
            decreases self.instances.len() - i,
        {
            proof {
                assert(self.instances@.take(i as int + 1).drop_last() =~= self.instances@.take(
                    i as int,
                ));
            }
            let inst = self.instances[i];
            if inst.instance != *ti {
                kept.push(inst);
            }
            i += 1;
        }
        proof {
            assert(self.instances@.take(i as int) =~= self.instances@);
        }
        self.instances = kept;
    }

    /// Handles a request of the text-input object `resource`: returns what the
    /// input method is to be told, in order, or the error that the request
    /// earns. Only a commit changes the record.
    pub fn request(&mut self, resource: ObjectKey, request: TextInputRequest) -> (r: Result<
        Vec<RelayAction>,
        TextInputError,
    >)
        ensures
            final(self)@ == after_request(old(self)@, resource, request),
            match (r, relay_for(request)) {
                (Ok(v), Ok(w)) => v@ == w,
                (Err(e), Err(f)) => e == f,
                _ => false,
            },
    {
        let mut out: Vec<RelayAction> = Vec::new();
        match request {
            TextInputRequest::Enable | TextInputRequest::Disable | TextInputRequest::Destroy => {},
            TextInputRequest::SetSurroundingText { text, cursor, anchor } => {
                out.push(
                    RelayAction::SurroundingText { text, cursor: cursor as u32, anchor: anchor as u32 },
                );
            },
            TextInputRequest::SetTextChangeCause { cause } => match cause {
                Enumerant::Known(c) => out.push(RelayAction::TextChangeCause { cause: c }),
                Enumerant::Unknown(v) => {
                    return Err(TextInputError::UnknownEnumerant { value: v });
                },
            },
            TextInputRequest::SetContentType { hint, purpose } => match (hint, purpose) {
                (Enumerant::Known(h), Enumerant::Known(p)) => out.push(
                    RelayAction::ContentType { hint: h, purpose: p },
                ),
                (Enumerant::Unknown(v), _) => {
                    return Err(TextInputError::UnknownEnumerant { value: v });
                },
                (Enumerant::Known(_), Enumerant::Unknown(v)) => {
                    return Err(TextInputError::UnknownEnumerant { value: v });
                },
            },
            TextInputRequest::SetCursorRectangle { x, y, width, height } => {
                out.push(RelayAction::SetTextInputRectangle { x, y, width, height });
            },
            TextInputRequest::Commit => {
                self.increment_serial(resource);
                out.push(RelayAction::Done);
            },
        }
        proof {
            assert(out@ =~= relay_for(request)->Ok_0);
        }
        Ok(out)
    }

    /// The text-input object `ti` was destroyed: it is forgotten, and the
    /// input method is to be deactivated and then told `done`, in that order,
    /// so that no session of it stays active.
    pub fn destroyed(&mut self, ti: &ObjectKey) -> (r: Vec<RelayAction>)
        ensures
            r@ == seq![RelayAction::Deactivate, RelayAction::Done],
            final(self)@ == removed(old(self)@, *ti),
    {
        let mut out: Vec<RelayAction> = Vec::new();
        out.push(RelayAction::Deactivate);
        out.push(RelayAction::Done);
        self.remove_instance(ti);
        out
    }
}


proof fn lemma_client_targets_belong(insts: Seq<Instance>, client: u64)
    ensures
        forall|k: int|
            0 <= k < client_targets(insts, client).len() ==> (#[trigger] client_targets(
                insts,
                client,
            )[k]).client == client,
    decreases insts.len(),
{
    if insts.len() > 0 {
        let init = insts.drop_last();
        lemma_client_targets_belong(init, client);
        let rest = client_targets(init, client);
        assert forall|k: int| 0 <= k < client_targets(insts, client).len() implies (#[trigger] client_targets(
            insts,
            client,
        )[k]).client == client by {
            if k < rest.len() {
                assert(client_targets(insts, client)[k] == rest[k]);
            }
        }
    }
}

proof fn lemma_ready_targets_belong(insts: Seq<Instance>, client: u64)
    ensures
        forall|k: int|
            0 <= k < ready_targets(insts, client).len() ==> (#[trigger] ready_targets(
                insts,
                client,
            )[k]).0.client == client,
    decreases insts.len(),
{
    if insts.len() > 0 {
        let init = insts.drop_last();
        lemma_ready_targets_belong(init, client);
        let rest = ready_targets(init, client);
        assert forall|k: int| 0 <= k < ready_targets(insts, client).len() implies (#[trigger] ready_targets(
            insts,
            client,
        )[k]).0.client == client by {
            if k < rest.len() {
                assert(ready_targets(insts, client)[k] == rest[k]);
            }
        }
    }
}

proof fn lemma_ready_targets_nonempty(insts: Seq<Instance>, client: u64)
    ensures
        ready_targets(insts, client).len() > 0 <==> (exists|j: int|
            0 <= j < insts.len() && (#[trigger] insts[j]).instance.client == client
                && insts[j].ready),
    decreases insts.len(),
{
    if insts.len() > 0 {
        let init = insts.drop_last();
        lemma_ready_targets_nonempty(init, client);
        if exists|j: int|
            0 <= j < init.len() && (#[trigger] init[j]).instance.client == client
                && init[j].ready {
            let j = choose|j: int|
                0 <= j < init.len() && (#[trigger] init[j]).instance.client == client
                    && init[j].ready;
            assert(insts[j] == init[j]);
        }
        if exists|j: int|
            0 <= j < insts.len() && (#[trigger] insts[j]).instance.client == client
                && insts[j].ready {
            let j = choose|j: int|
                0 <= j < insts.len() && (#[trigger] insts[j]).instance.client == client
                    && insts[j].ready;
            if j < init.len() {
                assert(init[j] == insts[j]);
            }
        }
    }
}

proof fn lemma_without_forgets(insts: Seq<Instance>, ti: ObjectKey)
    ensures
        forall|k: int|
            0 <= k < without(insts, ti).len() ==> (#[trigger] without(insts, ti)[k]).instance
                != ti,
        forall|j: int|
            0 <= j < insts.len() && (#[trigger] insts[j]).instance != ti ==> without(
                insts,
                ti,
            ).contains(insts[j]),
    decreases insts.len(),
{
    if insts.len() > 0 {
        let init = insts.drop_last();
        lemma_without_forgets(init, ti);
        let rest = without(init, ti);
        assert forall|j: int|
            0 <= j < insts.len() && (#[trigger] insts[j]).instance != ti implies without(
                insts,
                ti,
            ).contains(insts[j]) by {
            if j < init.len() {
                assert(init[j] == insts[j]);
                let k = choose|k: int| 0 <= k < rest.len() && rest[k] == init[j];
                if insts.last().instance != ti {
                    assert(rest.push(insts.last())[k] == insts[j]);
                }
            } else {
                assert(rest.push(insts.last())[rest.len() as int] == insts[j]);
            }
        }
    }
}

/// A commit of an instance raises its serial by exactly one and makes it
/// ready, as long as the serial is below the largest `u32`.
pub proof fn lemma_commit_raises_serial(s: TextInputState, ti: ObjectKey, j: int)
    requires
        0 <= j < s.instances.len(),
        s.instances[j].instance == ti,
        s.instances[j].serial < u32::MAX,
    ensures
        committed(s, ti).instances.len() == s.instances.len(),
        committed(s, ti).instances[j].instance == ti,
        committed(s, ti).instances[j].serial == s.instances[j].serial + 1,
        committed(s, ti).instances[j].ready,
{
}

/// Instance `j` of `s` is `ti`, with serial `n`, and ready if `n > 0`.
pub open spec fn after_commits(s: TextInputState, ti: ObjectKey, j: int, n: int) -> bool {
    &&& 0 <= j < s.instances.len()
    &&& s.instances[j].instance == ti
    &&& s.instances[j].serial == n
    &&& n > 0 ==> s.instances[j].ready
}

/// An instance is bound with serial 0, and after its k-th commit its serial is
/// k: each commit adds exactly one.
pub proof fn lemma_serial_counts_commits(states: Seq<TextInputState>, ti: ObjectKey, j: int)
    requires
        1 <= states.len() <= u32::MAX as int + 1,
        0 <= j < states[0].instances.len(),
        states[0].instances[j] == (Instance { instance: ti, serial: 0, ready: false }),
        forall|k: int|
            0 <= k < states.len() - 1 ==> #[trigger] committed(states[k], ti) == states[k + 1],
    ensures
        forall|k: int| 0 <= k < states.len() ==> after_commits(#[trigger] states[k], ti, j, k),
    decreases states.len(),
{
    if states.len() > 1 {
        let prev = states.drop_last();
        assert forall|k: int| 0 <= k < prev.len() - 1 implies #[trigger] committed(prev[k], ti)
            == prev[k + 1] by {
            assert(committed(states[k], ti) == states[k + 1]);
        }
        lemma_serial_counts_commits(prev, ti, j);
        let n = states.len() - 1;
        assert(prev[n - 1] == states[n - 1]);
        assert(committed(states[n - 1], ti) == states[n]);
        let last = states[n - 1];
        assert(prev[n - 1].instances[j].serial == n - 1);
        assert(committed(last, ti).instances[j] == bumped(last.instances[j], ti));
        assert forall|k: int| 0 <= k < states.len() implies after_commits(
            #[trigger] states[k],
            ti,
            j,
            k,
        ) by {
            if k < n {
                assert(prev[k] == states[k]);
                assert(prev[k].instances[j].serial == k);
            }
        }
    }
}

/// A `done` sends an event iff a focused instance is ready; a second `done`
/// with no commit in between sends none.
pub proof fn lemma_done_after_commit_only(s: TextInputState, focus_alive: bool)
    ensures
        done_events(s, focus_alive).len() > 0 <==> (exists|j: int|
            0 <= j < s.instances.len() && focused_client(s, focus_alive) == Some(
                (#[trigger] s.instances[j]).instance.client,
            ) && s.instances[j].ready),
        done_events(after_done(s, focus_alive), focus_alive) == Seq::<(ObjectKey, u32)>::empty(),
{
    match focused_client(s, focus_alive) {
        None => {
            assert(done_events(s, focus_alive) =~= Seq::<(ObjectKey, u32)>::empty());
        },
        Some(c) => {
            lemma_ready_targets_nonempty(s.instances, c);
            let t = after_done(s, focus_alive);
            lemma_ready_targets_nonempty(t.instances, c);
            assert(ready_targets(t.instances, c) =~= Seq::<(ObjectKey, u32)>::empty());
        },
    }
}

/// Once the focus is on `surface`, only instances of its client are sent
/// `enter`, `leave` or `done`, or handed to the input method as focused.
pub proof fn lemma_focus_exclusivity(s: TextInputState, surface: ObjectKey, focus_alive: bool)
    requires
        s.focus == Some(surface),
    ensures
        forall|k: int|
            0 <= k < client_targets(s.instances, surface.client).len() ==> (#[trigger] client_targets(
                s.instances,
                surface.client,
            )[k]).client == surface.client,
        forall|k: int|
            0 <= k < done_events(s, focus_alive).len() ==> (#[trigger] done_events(
                s,
                focus_alive,
            )[k]).0.client == surface.client,
        forall|k: int|
            0 <= k < focused_targets(s, focus_alive).len() ==> (#[trigger] focused_targets(
                s,
                focus_alive,
            )[k]).client == surface.client,
{
    lemma_client_targets_belong(s.instances, surface.client);
    lemma_ready_targets_belong(s.instances, surface.client);
}

/// With a dead focus surface nothing is focused: `done` sends nothing and
/// changes nothing, and no instance or serial is handed out.
pub proof fn lemma_dead_focus(s: TextInputState)
    ensures
        done_events(s, false) == Seq::<(ObjectKey, u32)>::empty(),
        after_done(s, false) == s,
        focused_targets(s, false) == Seq::<ObjectKey>::empty(),
        focused_serials(s, false) == Seq::<u32>::empty(),
{
}

/// After an instance is destroyed no instance has its identity, and every
/// other instance is still there.
pub proof fn lemma_destroy_forgets(s: TextInputState, ti: ObjectKey)
    ensures
        forall|k: int|
            0 <= k < removed(s, ti).instances.len() ==> (#[trigger] removed(s, ti).instances[k]).instance
                != ti,
        forall|j: int|
            0 <= j < s.instances.len() && (#[trigger] s.instances[j]).instance != ti ==> removed(
                s,
                ti,
            ).instances.contains(s.instances[j]),
        removed(s, ti).focus == s.focus,
{
    lemma_without_forgets(s.instances, ti);
}

} // verus!
