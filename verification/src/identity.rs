//! Public identities: the 32-byte names of accounts and programs.

use vstd::prelude::*;

verus! {

/// The public identity of an account or of a program.
#[derive(Debug, Clone, Copy, Hash)]
pub struct Identity {
    pub bytes: [u8; 32],
}

impl View for Identity {
    type V = Seq<u8>;

    open spec fn view(&self) -> Seq<u8> {
        self.bytes@
    }
}

/// The identity of the runtime's base system program: thirty-two zero bytes.
pub open spec fn system_identity() -> Seq<u8> {
    Seq::new(32, |i: int| 0u8)
}

/// Reads an identity from the front of `b`.
pub open spec fn parse_identity(b: Seq<u8>) -> Option<(Seq<u8>, Seq<u8>)> {
    if b.len() >= 32 {
        Some((b.take(32), b.skip(32)))
    } else {
        None
    }
}

impl PartialEq for Identity {
    fn eq(&self, other: &Self) -> (r: bool) {
        let mut i: usize = 0;
        while i < 32
            invariant
                i <= 32,
                self@.take(i as int) == other@.take(i as int),
            decreases 32 - i,
        {
            if self.bytes[i] != other.bytes[i] {
                return false;
            }
            i = i + 1;
            assert(self@.take(i as int) =~= self@.take(i - 1).push(self@[i - 1]));
            assert(other@.take(i as int) =~= other@.take(i - 1).push(other@[i - 1]));
        }
        assert(self@.take(32) =~= self@);
        assert(other@.take(32) =~= other@);
        true
    }
}

impl vstd::std_specs::cmp::PartialEqSpecImpl for Identity {
    open spec fn obeys_eq_spec() -> bool {
        true
    }

    open spec fn eq_spec(&self, other: &Self) -> bool {
        self@ == other@
    }
}

impl Eq for Identity {

}

/// `solana_program::system_program::id`, as bytes: the system program's
/// identity, which is thirty-two zero bytes.
#[verifier::external_body]
fn system_program_id() -> (r: Identity)
    ensures
        r@ == system_identity(),
{
    Identity { bytes: solana_program::system_program::id().to_bytes() }
}

impl Identity {
    /// The identity of the runtime's base system program.
    pub fn system() -> (r: Identity)
        ensures
            r@ == system_identity(),
    {
        system_program_id()
    }

    /// Whether this is the identity of the base system program.
    pub fn is_system(&self) -> (r: bool)
        ensures
            r == (self@ == system_identity()),
    {
        let system = system_program_id();
        *self == system
    }

    /// Appends the thirty-two bytes of the identity.
    pub fn encode_into(&self, out: &mut Vec<u8>)
        ensures
            final(out)@ == old(out)@ + self@,
    {
        let mut i: usize = 0;
        while i < 32
            invariant
                i <= 32,
                out@ == old(out)@ + self@.take(i as int),
            decreases 32 - i,
        {
            out.push(self.bytes[i]);
            i = i + 1;
            assert(out@ =~= old(out)@ + self@.take(i as int));
        }
        assert(self@.take(32) =~= self@);
    }

    /// Reads an identity at `pos`. The result holds the identity and the
    /// position behind it, or nothing where fewer than thirty-two bytes are
    /// left.
    pub fn take(input: &[u8], pos: usize) -> (r: Option<(Identity, usize)>)
        requires
            pos <= input.len(),
        ensures
            match r {
                Some((id, next)) => pos <= next <= input.len() && parse_identity(
                    input@.skip(pos as int),
                ) == Some((id@, input@.skip(next as int))),
                None => parse_identity(input@.skip(pos as int)) is None,
            },
    {
        if input.len() - pos < 32 {
            return None;
        }
        let mut bytes = [0u8; 32];
        let mut i: usize = 0;
        while i < 32
            invariant
                i <= 32,
                pos + 32 <= input.len(),
                forall|k: int| 0 <= k < i ==> bytes@[k] == input@[pos + k],
            decreases 32 - i,
        {
            bytes[i] = input[pos + i];
            i = i + 1;
        }
        let id = Identity { bytes };
        assert(id@ =~= input@.skip(pos as int).take(32));
        assert(input@.skip(pos as int).skip(32) =~= input@.skip(pos + 32));
        Some((id, pos + 32))
    }
}

} // verus!
