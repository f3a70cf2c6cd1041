use vstd::prelude::*;

use crate::args::ArgumentCursor;
use crate::convert::lemma_render_never_sink_failure;
use crate::convert::render_to_vec;
use crate::convert::spec_render_from;
use crate::convert::Rendered;
use crate::errors::FmtError;
use crate::numfmt::push_all;

verus! {

/// An abstract character-writing destination supplied by the caller: a
/// string buffer, a log stream, or whatever else the surrounding system
/// writes diagnostic text to.
pub trait OutputSink {
    /// The text the sink holds, as the bytes written to it so far.
    spec fn contents(&self) -> Seq<u8>;

    /// Appends `text` to the sink.  A failed write leaves the contents
    /// unchanged and aborts the render call that asked for it.
    fn write_text(&mut self, text: &[u8]) -> (r: Result<(), ()>)
        ensures
            r is Ok ==> final(self).contents() == old(self).contents() + text@,
            r is Err ==> final(self).contents() == old(self).contents(),
    ;
}

/// A sink writing into an owned byte buffer; its writes always succeed.
pub struct VecSink {
    pub data: Vec<u8>,
}

impl VecSink {
    /// An empty buffer sink.
    pub fn new() -> (r: VecSink)
        ensures
            r.contents() == Seq::<u8>::empty(),
    {
        VecSink { data: Vec::new() }
    }
}

impl OutputSink for VecSink {
    open spec fn contents(&self) -> Seq<u8> {
        self.data@
    }

    fn write_text(&mut self, text: &[u8]) -> (r: Result<(), ()>) {
        push_all(&mut self.data, text);
        Ok(())
    }
}

/// A sink with a fixed capacity, for destinations that must not grow: a
/// write that would take the buffer past its capacity fails whole, leaving
/// the contents unchanged.
pub struct BoundedSink {
    pub data: Vec<u8>,
    pub capacity: usize,
}

impl BoundedSink {
    /// An empty sink that accepts at most `capacity` bytes in all.
    pub fn new(capacity: usize) -> (r: BoundedSink)
        ensures
            r.contents() == Seq::<u8>::empty(),
            r.capacity == capacity,
    {
        BoundedSink { data: Vec::new(), capacity }
    }
}

impl OutputSink for BoundedSink {
    open spec fn contents(&self) -> Seq<u8> {
        self.data@
    }

    fn write_text(&mut self, text: &[u8]) -> (r: Result<(), ()>)
        ensures
            r is Ok <==> old(self).data@.len() + text@.len() <= old(self).capacity,
            final(self).capacity == old(self).capacity,
    {
        if text.len() <= self.capacity && self.data.len() <= self.capacity - text.len() {
            push_all(&mut self.data, text);
            Ok(())
        } else {
            Err(())
        }
    }
}

/// The render entry point: renders the format text against the argument
/// cursor and writes the complete output to the sink in a single write.  A
/// call either completes, with the whole rendered text appended to the sink,
/// or fails atomically: on any error nothing has been written, and any error
/// but `SinkFailure` says exactly why the text could not be rendered.
pub fn render<S: OutputSink>(fmt: &[u8], args: &mut ArgumentCursor, sink: &mut S) -> (r: Result<
    (),
    FmtError,
>)
    ensures
        match r {
            Ok(()) => {
                &&& spec_render_from(fmt@, 0, old(args)@) is Done
                &&& final(sink).contents() == old(sink).contents() + spec_render_from(
                    fmt@,
                    0,
                    old(args)@,
                )->Done_0
                &&& final(args)@ == spec_render_from(fmt@, 0, old(args)@)->Done_1
            },
            Err(e) => {
                &&& final(sink).contents() == old(sink).contents()
                &&& if e == FmtError::SinkFailure {
                    spec_render_from(fmt@, 0, old(args)@) is Done
                } else {
                    spec_render_from(fmt@, 0, old(args)@) == Rendered::Fail(e)
                }
            },
        },
{
    match render_to_vec(fmt, args) {
        Ok(v) => match sink.write_text(v.as_slice()) {
            Ok(()) => Ok(()),
            Err(()) => Err(FmtError::SinkFailure),
        },
        Err(e) => {
            proof {
                lemma_render_never_sink_failure(fmt@, 0, old(args)@);
            }
            Err(e)
        },
    }
}

} // verus!
