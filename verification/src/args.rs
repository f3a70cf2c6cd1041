use vstd::prelude::*;

use crate::errors::FmtError;

verus! {

/// Spec-level picture of one argument slot: the kind of value the caller
/// supplied together with its mathematical content.
pub enum ArgV {
    Signed(isize),
    Unsigned(usize),
    Byte(u8),
    Address(usize),
    Text(Seq<u8>),
}

/// One typed argument slot supplied for a single render call: a signed or
/// unsigned integer, a single byte, a raw address, or the bytes of a string
/// buffer (which need not contain a terminating zero byte).
#[derive(Clone, Debug)]
pub enum ArgValue {
    Signed(isize),
    Unsigned(usize),
    Byte(u8),
    Address(usize),
    Text(Vec<u8>),
}

impl View for ArgValue {
    type V = ArgV;

    open spec fn view(&self) -> ArgV {
        match self {
            ArgValue::Signed(v) => ArgV::Signed(*v),
            ArgValue::Unsigned(v) => ArgV::Unsigned(*v),
            ArgValue::Byte(v) => ArgV::Byte(*v),
            ArgValue::Address(v) => ArgV::Address(*v),
            ArgValue::Text(b) => ArgV::Text(b@),
        }
    }
}

/// A sequential, order-preserving reader over the caller's list of typed
/// argument values.  Each successful read consumes exactly one slot, front to
/// back; there is no rewind.  Its view is the sequence of slots not yet
/// consumed.
///
/// A read fails with [`FmtError::ArgumentExhausted`] when no slot is left or
/// when the front slot holds a value of another kind than the one requested;
/// a failed read consumes nothing.
pub struct ArgumentCursor {
    items: Vec<ArgValue>,
}

impl View for ArgumentCursor {
    type V = Seq<ArgV>;

    closed spec fn view(&self) -> Seq<ArgV> {
        self.items@.map_values(|a: ArgValue| a@)
    }
}

proof fn lemma_view_after_remove(pre: Seq<ArgValue>, post: Seq<ArgValue>)
    requires
        pre.len() > 0,
        post == pre.remove(0),
    ensures
        post.map_values(|a: ArgValue| a@) == pre.map_values(|a: ArgValue| a@).drop_first(),
{
    assert(post.map_values(|a: ArgValue| a@) =~= pre.map_values(
        |a: ArgValue| a@,
    ).drop_first());
}

impl ArgumentCursor {
    /// Builds a cursor over the given slots, to be read front to back.
    pub fn new(items: Vec<ArgValue>) -> (r: ArgumentCursor)
        ensures
            r@ == items@.map_values(|a: ArgValue| a@),
    {
        ArgumentCursor { items }
    }

    /// Pulls the next slot when it holds a signed integer.
    pub fn next_signed_int(&mut self) -> (r: Result<isize, FmtError>)
        ensures
            match r {
                Ok(v) => {
                    &&& old(self)@.len() > 0
                    &&& old(self)@[0] == ArgV::Signed(v)
                    &&& final(self)@ == old(self)@.drop_first()
                },
                Err(e) => {
                    &&& e == FmtError::ArgumentExhausted
                    &&& final(self)@ == old(self)@
                    &&& (old(self)@.len() == 0 || !(old(self)@[0] is Signed))
                },
            },
    {
        if self.items.len() == 0 {
            return Err(FmtError::ArgumentExhausted);
        }
        match &self.items[0] {
            ArgValue::Signed(_) => {},
            _ => {
                return Err(FmtError::ArgumentExhausted);
            },
        }
        let ghost pre = self.items@;
        let front = self.items.remove(0);
        proof {
            lemma_view_after_remove(pre, self.items@);
        }
        match front {
            ArgValue::Signed(v) => Ok(v),
            _ => {
                assert(false);
                Err(FmtError::ArgumentExhausted)
            },
        }
    }

    /// Pulls the next slot when it holds an unsigned integer.
    pub fn next_unsigned_int(&mut self) -> (r: Result<usize, FmtError>)
        ensures
            match r {
                Ok(v) => {
                    &&& old(self)@.len() > 0
                    &&& old(self)@[0] == ArgV::Unsigned(v)
                    &&& final(self)@ == old(self)@.drop_first()
                },
                Err(e) => {
                    &&& e == FmtError::ArgumentExhausted
                    &&& final(self)@ == old(self)@
                    &&& (old(self)@.len() == 0 || !(old(self)@[0] is Unsigned))
                },
            },
    {
        if self.items.len() == 0 {
            return Err(FmtError::ArgumentExhausted);
        }
        match &self.items[0] {
            ArgValue::Unsigned(_) => {},
            _ => {
                return Err(FmtError::ArgumentExhausted);
            },
        }
        let ghost pre = self.items@;
        let front = self.items.remove(0);
        proof {
            lemma_view_after_remove(pre, self.items@);
        }
        match front {
            ArgValue::Unsigned(v) => Ok(v),
            _ => {
                assert(false);
                Err(FmtError::ArgumentExhausted)
            },
        }
    }

    /// Pulls the next slot when it holds a single byte.
    pub fn next_byte(&mut self) -> (r: Result<u8, FmtError>)
        ensures
            match r {
                Ok(v) => {
                    &&& old(self)@.len() > 0
                    &&& old(self)@[0] == ArgV::Byte(v)
                    &&& final(self)@ == old(self)@.drop_first()
                },
                Err(e) => {
                    &&& e == FmtError::ArgumentExhausted
                    &&& final(self)@ == old(self)@
                    &&& (old(self)@.len() == 0 || !(old(self)@[0] is Byte))
                },
            },
    {
        if self.items.len() == 0 {
            return Err(FmtError::ArgumentExhausted);
        }
        match &self.items[0] {
            ArgValue::Byte(_) => {},
            _ => {
                return Err(FmtError::ArgumentExhausted);
            },
        }
        let ghost pre = self.items@;
        let front = self.items.remove(0);
        proof {
            lemma_view_after_remove(pre, self.items@);
        }
        match front {
            ArgValue::Byte(v) => Ok(v),
            _ => {
                assert(false);
                Err(FmtError::ArgumentExhausted)
            },
        }
    }

    /// Pulls the next slot when it holds a raw address.
    pub fn next_address(&mut self) -> (r: Result<usize, FmtError>)
        ensures
            match r {
                Ok(v) => {
                    &&& old(self)@.len() > 0
                    &&& old(self)@[0] == ArgV::Address(v)
                    &&& final(self)@ == old(self)@.drop_first()
                },
                Err(e) => {
                    &&& e == FmtError::ArgumentExhausted
                    &&& final(self)@ == old(self)@
                    &&& (old(self)@.len() == 0 || !(old(self)@[0] is Address))
                },
            },
    {
        if self.items.len() == 0 {
            return Err(FmtError::ArgumentExhausted);
        }
        match &self.items[0] {
            ArgValue::Address(_) => {},
            _ => {
                return Err(FmtError::ArgumentExhausted);
            },
        }
        let ghost pre = self.items@;
        let front = self.items.remove(0);
        proof {
            lemma_view_after_remove(pre, self.items@);
        }
        match front {
            ArgValue::Address(v) => Ok(v),
            _ => {
                assert(false);
                Err(FmtError::ArgumentExhausted)
            },
        }
    }

    /// Pulls the next slot when it holds the bytes of a string buffer.
    pub fn next_text(&mut self) -> (r: Result<Vec<u8>, FmtError>)
        ensures
            match r {
                Ok(v) => {
                    &&& old(self)@.len() > 0
                    &&& old(self)@[0] == ArgV::Text(v@)
                    &&& final(self)@ == old(self)@.drop_first()
                },
                Err(e) => {
                    &&& e == FmtError::ArgumentExhausted
                    &&& final(self)@ == old(self)@
                    &&& (old(self)@.len() == 0 || !(old(self)@[0] is Text))
                },
            },
    {
        if self.items.len() == 0 {
            return Err(FmtError::ArgumentExhausted);
        }
        match &self.items[0] {
            ArgValue::Text(_) => {},
            _ => {
                return Err(FmtError::ArgumentExhausted);
            },
        }
        let ghost pre = self.items@;
        let front = self.items.remove(0);
        proof {
            lemma_view_after_remove(pre, self.items@);
        }
        match front {
            ArgValue::Text(v) => Ok(v),
            _ => {
                assert(false);
                Err(FmtError::ArgumentExhausted)
            },
        }
    }
}

} // verus!
