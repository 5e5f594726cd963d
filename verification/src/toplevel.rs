//! Per-window records and the wire decoding of state flags.

use vstd::prelude::*;

verus! {

/// One state flag of a toplevel window, as the protocol reports it.
#[derive(Clone, Copy, Debug, PartialEq, Eq, Structural)]
pub enum State {
    Maximized,
    Minimized,
    Active,
    Fullscreen,
}

/// The 32-bit wire code of a state flag.
pub open spec fn state_code(s: State) -> u32 {
    match s {
        State::Maximized => 0,
        State::Minimized => 1,
        State::Active => 2,
        State::Fullscreen => 3,
    }
}

/// The state flag a 32-bit wire code stands for; meaningful only for codes
/// below 4, every other code is a protocol violation.
pub open spec fn state_of_code(a: u32) -> State
    recommends
        a < 4,
{
    if a == 0 {
        State::Maximized
    } else if a == 1 {
        State::Minimized
    } else if a == 2 {
        State::Active
    } else {
        State::Fullscreen
    }
}

/// The little-endian 32-bit word stored in `bytes` at chunk index `i`.
pub open spec fn word_at(bytes: Seq<u8>, i: int) -> u32
    recommends
        0 <= i,
        4 * i + 4 <= bytes.len(),
{
    (bytes[4 * i] + bytes[4 * i + 1] * 0x100 + bytes[4 * i + 2] * 0x1_0000 + bytes[4 * i + 3]
        * 0x100_0000) as u32
}

/// A state buffer is well formed when it splits into whole 4-byte chunks and
/// every chunk holds a known flag code.
pub open spec fn states_wire_ok(bytes: Seq<u8>) -> bool {
    &&& bytes.len() % 4 == 0
    &&& forall|i: int| 0 <= i < bytes.len() / 4 ==> word_at(bytes, i) < 4
}

/// The flag sequence a well-formed state buffer decodes to.
pub open spec fn decoded_states(bytes: Seq<u8>) -> Seq<State>
    recommends
        states_wire_ok(bytes),
{
    Seq::new((bytes.len() / 4) as nat, |i: int| state_of_code(word_at(bytes, i)))
}

/// The wire codes of a flag sequence, in order.
pub open spec fn state_codes(s: Seq<State>) -> Seq<u32> {
    Seq::new(s.len(), |i: int| state_code(s[i]))
}

impl State {
    /// The wire code of this flag.
    pub fn to_u32(self) -> (r: u32)
        ensures
            r == state_code(self),
    {
        match self {
            State::Maximized => 0,
            State::Minimized => 1,
            State::Active => 2,
            State::Fullscreen => 3,
        }
    }

    /// Decode one wire code; `None` exactly on the codes the protocol does
    /// not define.
    pub fn try_from_u32(a: u32) -> (r: Option<State>)
        ensures
            match r {
                Some(s) => a < 4 && s == state_of_code(a),
                None => a >= 4,
            },
    {
        if a == 0 {
            Some(State::Maximized)
        } else if a == 1 {
            Some(State::Minimized)
        } else if a == 2 {
            Some(State::Active)
        } else if a == 3 {
            Some(State::Fullscreen)
        } else {
            None
        }
    }

    /// Decode one wire code known to be in range.
    pub fn from_u32(a: u32) -> (r: State)
        requires
            a < 4,
        ensures
            r == state_of_code(a),
    {
        match State::try_from_u32(a) {
            Some(s) => s,
            // Unreachable: the code was required to be in range.
            None => State::Maximized,
        }
    }

    /// Decode a whole state buffer, or report the protocol violation:
    /// `None` exactly when the buffer is not a sequence of whole 4-byte
    /// little-endian words all below 4.
    pub fn try_from_bytes(bytes: &[u8]) -> (r: Option<Vec<State>>)
        ensures
            match r {
                Some(v) => states_wire_ok(bytes@) && v@ == decoded_states(bytes@),
                None => !states_wire_ok(bytes@),
            },
    {
        let n = bytes.len();
        if n % 4 != 0 {
            return None;
        }
        let count = n / 4;
        proof {
            assert(n as int == 4 * (n as int / 4) + n as int % 4);
            assert(4 * count == bytes@.len());
        }
        let mut v: Vec<State> = Vec::new();
        let mut i: usize = 0;
        while i < count
            invariant
                bytes@.len() % 4 == 0,
                count == bytes@.len() / 4,
                4 * count == bytes@.len(),
                bytes@.len() <= usize::MAX,
                i <= count,
                v@.len() == i as int,
                forall|j: int| 0 <= j < i ==> word_at(bytes@, j) < 4,
                forall|j: int| 0 <= j < i ==> v@[j] == state_of_code(word_at(bytes@, j)),
            decreases count - i,
        {
            proof {
                assert(4 * i + 3 < bytes@.len());
            }
            let b0 = bytes[4 * i] as u32;
            let b1 = bytes[4 * i + 1] as u32;
            let b2 = bytes[4 * i + 2] as u32;
            let b3 = bytes[4 * i + 3] as u32;
            let word = b0 + b1 * 0x100 + b2 * 0x1_0000 + b3 * 0x100_0000;
            assert(word == word_at(bytes@, i as int));
            match State::try_from_u32(word) {
                Some(s) => {
                    v.push(s);
                }
                None => {
                    return None;
                }
            }
            i = i + 1;
        }
        proof {
            assert(v@ =~= decoded_states(bytes@));
        }
        Some(v)
    }

    /// Decode a whole state buffer already known well formed.
    pub fn from_bytes(bytes: &[u8]) -> (r: Vec<State>)
        requires
            states_wire_ok(bytes@),
        ensures
            r@ == decoded_states(bytes@),
    {
        match State::try_from_bytes(bytes) {
            Some(v) => v,
            // Unreachable: the buffer was required to be well formed.
            None => Vec::new(),
        }
    }
}

/// The wire codes of a flag vector, in order.
pub fn states_to_codes(st: &Vec<State>) -> (r: Vec<u32>)
    ensures
        r@ == state_codes(st@),
{
    let n = st.len();
    let mut r: Vec<u32> = Vec::new();
    let mut i: usize = 0;
    while i < n
        invariant
            n == st@.len(),
            i <= n,
            r@.len() == i as int,
            forall|j: int| 0 <= j < i ==> r@[j] == state_code(st@[j]),
        decreases n - i,
    {
        r.push(st[i].to_u32());
        i = i + 1;
    }
    proof {
        assert(r@ =~= state_codes(st@));
    }
    r
}

/// What the aggregator knows of one toplevel window.  The `output` field is a
/// weak reference into the output name registry: a bare id, looked up at
/// snapshot time, owning nothing.
#[derive(Debug)]
pub struct Toplevel {
    pub id: u32,
    pub title: Option<String>,
    pub app_id: Option<String>,
    pub output: Option<u32>,
    pub state: Vec<State>,
}

/// The mathematical shadow of a window record: texts as character sequences.
#[verifier::ext_equal]
pub ghost struct ToplevelView {
    pub id: u32,
    pub title: Option<Seq<char>>,
    pub app_id: Option<Seq<char>>,
    pub output: Option<u32>,
    pub state: Seq<State>,
}

impl View for Toplevel {
    type V = ToplevelView;

    open spec fn view(&self) -> ToplevelView {
        ToplevelView {
            id: self.id,
            title: match self.title {
                Some(t) => Some(t@),
                None => None,
            },
            app_id: match self.app_id {
                Some(t) => Some(t@),
                None => None,
            },
            output: self.output,
            state: self.state@,
        }
    }
}

/// The record a `New` event creates: all attributes unknown, no flags.
pub open spec fn empty_record(id: u32) -> ToplevelView {
    ToplevelView { id, title: None, app_id: None, output: None, state: Seq::empty() }
}

impl Toplevel {
    /// A fresh record for a window just announced.
    pub fn new(id: u32) -> (r: Self)
        ensures
            r@ == empty_record(id),
    {
        Self { id, title: None, app_id: None, output: None, state: Vec::new() }
    }
}

} // verus!
