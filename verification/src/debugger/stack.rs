//! Call-stack reconstruction from what the native stack walker reports.
use crate::debugger::memory::{c_string_bytes, lemma_nul_index, nul_index, until_nul};
use crate::text::{lossy_text, string_from_utf8_lossy};
use vstd::prelude::*;
use vstd::utf8::{decode_utf8, valid_utf8};

verus! {

/// One activation record of the debuggee.
#[derive(Debug, Clone)]
pub struct StackFrame {
    pub instruction_pointer: usize,
    pub stack_pointer: usize,
    pub frame_pointer: usize,
    pub module_name: String,
    pub function_name: Option<String>,
    pub source_file: Option<String>,
    pub line_number: Option<u32>,
}

/// What a `StackFrame` holds, as mathematical values.
pub struct StackFrameView {
    pub instruction_pointer: usize,
    pub stack_pointer: usize,
    pub frame_pointer: usize,
    pub module_name: Seq<char>,
    pub function_name: Option<Seq<char>>,
    pub source_file: Option<Seq<char>>,
    pub line_number: Option<u32>,
}

/// The text of an optional string.
pub open spec fn text_of(s: Option<String>) -> Option<Seq<char>> {
    match s {
        Some(t) => Some(t@),
        None => None,
    }
}

impl View for StackFrame {
    type V = StackFrameView;

    open spec fn view(&self) -> StackFrameView {
        StackFrameView {
            instruction_pointer: self.instruction_pointer,
            stack_pointer: self.stack_pointer,
            frame_pointer: self.frame_pointer,
            module_name: self.module_name@,
            function_name: text_of(self.function_name),
            source_file: text_of(self.source_file),
            line_number: self.line_number,
        }
    }
}

/// Results of the three lookups for one instruction pointer, as the native
/// symbol facility returned them: NUL-terminated names in raw buffers.
/// Each is `None` where the lookup found nothing.
pub struct FrameLookups {
    /// Name of the module that contains the instruction pointer.
    pub module_name: Option<Vec<u8>>,
    /// Name of the symbol that contains the instruction pointer.
    pub function_name: Option<Vec<u8>>,
    /// File name and line of the source line that contains it.
    pub source: Option<(Vec<u8>, u32)>,
}

/// One frame as the native stack walker reported it, with the lookups made
/// for its instruction pointer.
pub struct WalkedFrame {
    pub instruction_pointer: usize,
    pub stack_pointer: usize,
    pub frame_pointer: usize,
    pub lookups: FrameLookups,
}

/// The text of a NUL-terminated buffer: what its bytes before the first
/// zero encode, with the replacement character for what is not UTF-8.
pub open spec fn c_text(bytes: Seq<u8>) -> Seq<char> {
    lossy_text(c_string_bytes(bytes))
}

/// The bytes of the name of a module: those before the first zero byte
/// of its buffer, and none where the buffer holds no zero byte.
pub open spec fn module_bytes(bytes: Seq<u8>) -> Seq<u8> {
    if nul_index(bytes) < bytes.len() {
        c_string_bytes(bytes)
    } else {
        Seq::<u8>::empty()
    }
}

/// What the three lookups found, as texts.
pub struct FrameNames {
    pub module_name: Option<String>,
    pub function_name: Option<String>,
    pub source: Option<(String, u32)>,
}

/// The texts of what the lookups found.
pub open spec fn names_of(lookups: FrameLookups) -> (
    Option<Seq<char>>,
    Option<Seq<char>>,
    Option<(Seq<char>, u32)>,
) {
    (
        match lookups.module_name {
            Some(b) => Some(lossy_text(module_bytes(b@))),
            None => None,
        },
        match lookups.function_name {
            Some(b) => Some(c_text(b@)),
            None => None,
        },
        match lookups.source {
            Some((file, line)) => Some((c_text(file@), line)),
            None => None,
        },
    )
}

/// A frame after names have been entered: each name that was found sets
/// its fields, any other leaves them as they were.  The pointers stay.
pub open spec fn entered(
    frame: StackFrameView,
    module_name: Option<Seq<char>>,
    function_name: Option<Seq<char>>,
    source: Option<(Seq<char>, u32)>,
) -> StackFrameView {
    StackFrameView {
        instruction_pointer: frame.instruction_pointer,
        stack_pointer: frame.stack_pointer,
        frame_pointer: frame.frame_pointer,
        module_name: match module_name {
            Some(t) => t,
            None => frame.module_name,
        },
        function_name: match function_name {
            Some(t) => Some(t),
            None => frame.function_name,
        },
        source_file: match source {
            Some((file, line)) => Some(file),
            None => frame.source_file,
        },
        line_number: match source {
            Some((file, line)) => Some(line),
            None => frame.line_number,
        },
    }
}

/// A frame after the lookups have been entered: a lookup that found
/// something sets its fields, any other leaves them as they were.
pub open spec fn populated(frame: StackFrameView, lookups: FrameLookups) -> StackFrameView {
    entered(frame, names_of(lookups).0, names_of(lookups).1, names_of(lookups).2)
}

/// The frame that stands for a walked frame: its three pointers, and what
/// the lookups found.
pub open spec fn frame_of(walked: WalkedFrame) -> StackFrameView {
    populated(
        StackFrameView {
            instruction_pointer: walked.instruction_pointer,
            stack_pointer: walked.stack_pointer,
            frame_pointer: walked.frame_pointer,
            module_name: Seq::<char>::empty(),
            function_name: None,
            source_file: None,
            line_number: None,
        },
        walked.lookups,
    )
}

/// Number of leading frames whose instruction pointer is not zero: the
/// walk ends before the first frame without a valid instruction pointer.
pub open spec fn live_len(walked: Seq<WalkedFrame>) -> int
    decreases walked.len(),
{
    if walked.len() == 0 || walked[0].instruction_pointer == 0 {
        0
    } else {
        1 + live_len(walked.drop_first())
    }
}

/// `live_len` is the least index of a frame with a zero instruction
/// pointer, or the number of frames where there is none.
pub proof fn lemma_live_len(walked: Seq<WalkedFrame>)
    ensures
        0 <= live_len(walked) <= walked.len(),
        forall|i: int| 0 <= i < live_len(walked) ==> walked[i].instruction_pointer != 0,
        live_len(walked) < walked.len() ==> walked[live_len(walked)].instruction_pointer == 0,
    decreases walked.len(),
{
    if walked.len() == 0 || walked[0].instruction_pointer == 0 {
    } else {
        let rest = walked.drop_first();
        lemma_live_len(rest);
        assert forall|i: int| 0 <= i < live_len(walked) implies walked[i].instruction_pointer
            != 0 by {
            if i > 0 {
                assert(walked[i] == rest[i - 1]);
            }
        }
        if live_len(walked) < walked.len() {
            assert(walked[live_len(walked)] == rest[live_len(rest)]);
        }
    }
}

/// A chain in which every frame has a valid instruction pointer is walked
/// to its end.
pub proof fn lemma_live_len_full(walked: Seq<WalkedFrame>)
    requires
        forall|i: int| 0 <= i < walked.len() ==> walked[i].instruction_pointer != 0,
    ensures
        live_len(walked) == walked.len(),
{
    lemma_live_len(walked);
}

/// The frames of an unwind: none without a register context; else the
/// frame of the context, then the frames of the walk up to its end.
pub open spec fn unwound(context: Option<WalkedFrame>, walked: Seq<WalkedFrame>) -> Seq<
    StackFrameView,
> {
    match context {
        None => Seq::<StackFrameView>::empty(),
        Some(innermost) => seq![frame_of(innermost)] + Seq::new(
            live_len(walked) as nat,
            |i: int| frame_of(walked[i]),
        ),
    }
}

/// The views of a vector of frames.
pub open spec fn frame_views(frames: Seq<StackFrame>) -> Seq<StackFrameView> {
    Seq::new(frames.len(), |i: int| frames[i]@)
}

/// The text of a NUL-terminated buffer.  Bytes that are no UTF-8 are
/// shown by the replacement character.
pub fn decode_c_string(bytes: &Vec<u8>) -> (text: String)
    ensures
        text@ == c_text(bytes@),
        valid_utf8(c_string_bytes(bytes@)) ==> text@ == decode_utf8(c_string_bytes(bytes@)),
{
    let raw = until_nul(bytes.as_slice());
    string_from_utf8_lossy(&raw)
}

/// The name of a module from its buffer: empty where the buffer holds no
/// zero byte.
pub fn decode_module_name(bytes: &Vec<u8>) -> (text: String)
    ensures
        text@ == lossy_text(module_bytes(bytes@)),
        valid_utf8(module_bytes(bytes@)) ==> text@ == decode_utf8(module_bytes(bytes@)),
{
    let raw = until_nul(bytes.as_slice());
    proof {
        lemma_nul_index(bytes@);
    }
    if raw.len() < bytes.len() {
        string_from_utf8_lossy(&raw)
    } else {
        let none: Vec<u8> = Vec::new();
        assert(none@ =~= Seq::<u8>::empty());
        string_from_utf8_lossy(&none)
    }
}

/// The texts of what the lookups found.
pub fn decode_lookups(lookups: &FrameLookups) -> (names: FrameNames)
    ensures
        text_of(names.module_name) == names_of(*lookups).0,
        text_of(names.function_name) == names_of(*lookups).1,
        match names.source {
            Some((file, line)) => names_of(*lookups).2 == Some((file@, line)),
            None => names_of(*lookups).2 is None,
        },
{
    FrameNames {
        module_name: match &lookups.module_name {
            Some(bytes) => Some(decode_module_name(bytes)),
            None => None,
        },
        function_name: match &lookups.function_name {
            Some(bytes) => Some(decode_c_string(bytes)),
            None => None,
        },
        source: match &lookups.source {
            Some(pair) => Some((decode_c_string(&pair.0), pair.1)),
            None => None,
        },
    }
}

/// Enters names into a frame: each name that was found sets its fields,
/// any other leaves them as they were.  The pointers are never changed.
pub fn enter_names(frame: &mut StackFrame, names: FrameNames)
    ensures
        final(frame)@ == entered(
            old(frame)@,
            text_of(names.module_name),
            text_of(names.function_name),
            match names.source {
                Some((file, line)) => Some((file@, line)),
                None => None,
            },
        ),
{
    match names.module_name {
        Some(name) => {
            frame.module_name = name;
        },
        None => {},
    }
    match names.function_name {
        Some(name) => {
            frame.function_name = Some(name);
        },
        None => {},
    }
    match names.source {
        Some(pair) => {
            frame.source_file = Some(pair.0);
            frame.line_number = Some(pair.1);
        },
        None => {},
    }
}

/// Unwinds the stack of one thread of one debuggee.
pub struct StackUnwinder {
    pub process_handle: isize,
    pub thread_handle: isize,
}

impl StackUnwinder {
    pub fn new(process_handle: isize, thread_handle: isize) -> (unwinder: Self)
        ensures
            unwinder.process_handle == process_handle,
            unwinder.thread_handle == thread_handle,
    {
        StackUnwinder { process_handle, thread_handle }
    }

    /// The call stack, innermost frame first.  `context` is the register
    /// context of the thread, `None` where it could not be read; `walked`
    /// holds the frames that the native stack walker reported after it, in
    /// the order in which it reported them.  The walk ends with the last
    /// frame reported, or before the first frame whose instruction pointer
    /// is zero.
    pub fn unwind_stack(&self, context: Option<&WalkedFrame>, walked: &Vec<WalkedFrame>) -> (frames:
        Vec<StackFrame>)
        ensures
            frame_views(frames@) == unwound(
                match context {
                    Some(c) => Some(*c),
                    None => None,
                },
                walked@,
            ),
            context is None ==> frames@.len() == 0,
            context is Some ==> frames@.len() == 1 + live_len(walked@),
            context is Some ==> frames@[0].instruction_pointer == context->0.instruction_pointer,
            forall|i: int|
                1 <= i < frames@.len() ==> (#[trigger] frames@[i]).instruction_pointer
                    == walked@[i - 1].instruction_pointer,
    {
        let mut frames: Vec<StackFrame> = Vec::new();
        let innermost = match context {
            Some(c) => c,
            None => {
                assert(frame_views(frames@) =~= Seq::<StackFrameView>::empty());
                return frames;
            },
        };
        frames.push(self.frame_for(innermost));
        proof {
            lemma_live_len(walked@);
        }
        let mut i: usize = 0;
        while i < walked.len() && walked[i].instruction_pointer != 0
            invariant
                i <= walked@.len(),
                i <= live_len(walked@),
                frames@.len() == i + 1,
                frames@[0]@ == frame_of(*innermost),
                forall|k: int| 1 <= k <= i ==> (#[trigger] frames@[k])@ == frame_of(walked@[k - 1]),
                forall|k: int| 0 <= k < i ==> walked@[k].instruction_pointer != 0,
            decreases walked@.len() - i,
        {
            let frame = self.frame_for(&walked[i]);
            frames.push(frame);
            proof {
                lemma_live_len(walked@);
                if live_len(walked@) == i as int {
                    assert(walked@[i as int].instruction_pointer == 0);
                }
            }
            i += 1;
        }
        proof {
            lemma_live_len(walked@);
            if (i as int) < live_len(walked@) {
                assert(walked@[i as int].instruction_pointer != 0);
            }
            assert(frame_views(frames@) =~= unwound(Some(*innermost), walked@));
        }
        frames
    }

    /// The frame of one walked frame: bare pointers, then the lookups.
    pub fn frame_for(&self, walked: &WalkedFrame) -> (frame: StackFrame)
        ensures
            frame@ == frame_of(*walked),
    {
        let mut frame = StackFrame {
            instruction_pointer: walked.instruction_pointer,
            stack_pointer: walked.stack_pointer,
            frame_pointer: walked.frame_pointer,
            module_name: String::new(),
            function_name: None,
            source_file: None,
            line_number: None,
        };
        self.populate_frame_info(&mut frame, &walked.lookups);
        frame
    }

    /// Enters into `frame` what the three lookups found.  The lookups are
    /// independent: one that found nothing leaves its fields as they
    /// were.  The pointers are never changed.
    pub fn populate_frame_info(&self, frame: &mut StackFrame, lookups: &FrameLookups)
        ensures
            final(frame)@ == populated(old(frame)@, *lookups),
    {
        let names = decode_lookups(lookups);
        enter_names(frame, names);
    }
}

} // verus!
