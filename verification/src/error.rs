//! Errors of the accelerator backend.

use crate::text;
use vstd::prelude::*;
use vstd::string::*;

verus! {

/// What part of the backend an error comes from.
#[derive(Debug, Clone, Copy, PartialEq, Eq, Structural)]
pub enum CudaErrorKind {
    Driver,
    Runtime,
    Nvrtc,
    Io,
    InvalidInput,
    Unsupported,
    Internal,
}

impl CudaErrorKind {
    /// The variant's name.
    pub open spec fn spec_name(self) -> Seq<char> {
        match self {
            CudaErrorKind::Driver => "Driver"@,
            CudaErrorKind::Runtime => "Runtime"@,
            CudaErrorKind::Nvrtc => "Nvrtc"@,
            CudaErrorKind::Io => "Io"@,
            CudaErrorKind::InvalidInput => "InvalidInput"@,
            CudaErrorKind::Unsupported => "Unsupported"@,
            CudaErrorKind::Internal => "Internal"@,
        }
    }

    /// The variant's name.
    pub fn name(&self) -> (s: &'static str)
        ensures
            s@ == self.spec_name(),
    {
        match self {
            CudaErrorKind::Driver => "Driver",
            CudaErrorKind::Runtime => "Runtime",
            CudaErrorKind::Nvrtc => "Nvrtc",
            CudaErrorKind::Io => "Io",
            CudaErrorKind::InvalidInput => "InvalidInput",
            CudaErrorKind::Unsupported => "Unsupported",
            CudaErrorKind::Internal => "Internal",
        }
    }
}

/// An error with what was being done, where, and why it failed.
#[derive(Debug, Clone)]
pub struct CudaError {
    pub kind: CudaErrorKind,
    pub action: String,
    pub file: &'static str,
    pub line: u32,
    pub module: &'static str,
    pub source_message: String,
}

/// What an error says, in mathematical terms.
#[verifier::ext_equal]
pub struct Fault {
    pub kind: CudaErrorKind,
    pub action: Seq<char>,
    pub file: Seq<char>,
    pub line: u32,
    pub module: Seq<char>,
    pub message: Seq<char>,
}

impl View for CudaError {
    type V = Fault;

    open spec fn view(&self) -> Fault {
        Fault {
            kind: self.kind,
            action: self.action@,
            file: self.file@,
            line: self.line,
            module: self.module@,
            message: self.source_message@,
        }
    }
}

/// The part of this library that raises an error.
#[derive(Debug, Clone, Copy, PartialEq, Eq, Structural)]
pub enum Source {
    Bench,
    Deepseek,
    Device,
    Flags,
    Gate,
    Moe,
    Options,
    Quant,
    Run,
}

impl Source {
    /// The source file.
    pub open spec fn spec_file(self) -> Seq<char> {
        match self {
            Source::Bench => "src/bench.rs"@,
            Source::Deepseek => "src/deepseek.rs"@,
            Source::Device => "src/device.rs"@,
            Source::Flags => "src/flags.rs"@,
            Source::Gate => "src/gate.rs"@,
            Source::Moe => "src/moe.rs"@,
            Source::Options => "src/options.rs"@,
            Source::Quant => "src/quant.rs"@,
            Source::Run => "src/run.rs"@,
        }
    }

    /// The module's path.
    pub open spec fn spec_module(self) -> Seq<char> {
        match self {
            Source::Bench => "objeta::bench"@,
            Source::Deepseek => "objeta::deepseek"@,
            Source::Device => "objeta::device"@,
            Source::Flags => "objeta::flags"@,
            Source::Gate => "objeta::gate"@,
            Source::Moe => "objeta::moe"@,
            Source::Options => "objeta::options"@,
            Source::Quant => "objeta::quant"@,
            Source::Run => "objeta::run"@,
        }
    }

    /// The source file.
    pub fn file(&self) -> (s: &'static str)
        ensures
            s@ == self.spec_file(),
    {
        match self {
            Source::Bench => "src/bench.rs",
            Source::Deepseek => "src/deepseek.rs",
            Source::Device => "src/device.rs",
            Source::Flags => "src/flags.rs",
            Source::Gate => "src/gate.rs",
            Source::Moe => "src/moe.rs",
            Source::Options => "src/options.rs",
            Source::Quant => "src/quant.rs",
            Source::Run => "src/run.rs",
        }
    }

    /// The module's path.
    pub fn module(&self) -> (s: &'static str)
        ensures
            s@ == self.spec_module(),
    {
        match self {
            Source::Bench => "objeta::bench",
            Source::Deepseek => "objeta::deepseek",
            Source::Device => "objeta::device",
            Source::Flags => "objeta::flags",
            Source::Gate => "objeta::gate",
            Source::Moe => "objeta::moe",
            Source::Options => "objeta::options",
            Source::Quant => "objeta::quant",
            Source::Run => "objeta::run",
        }
    }
}

/// An error that this library itself raises. It names the file and the module that
/// raise it; no line is recorded.
pub open spec fn fault(
    source: Source,
    kind: CudaErrorKind,
    action: Seq<char>,
    message: Seq<char>,
) -> Fault {
    Fault {
        kind,
        action,
        file: source.spec_file(),
        line: 0,
        module: source.spec_module(),
        message,
    }
}

/// An `InvalidInput` error that this library itself raises.
pub open spec fn invalid(source: Source, action: Seq<char>, message: Seq<char>) -> Fault {
    fault(source, CudaErrorKind::InvalidInput, action, message)
}

/// An `Unsupported` error that this library itself raises.
pub open spec fn unsupported(source: Source, action: Seq<char>, message: Seq<char>) -> Fault {
    fault(source, CudaErrorKind::Unsupported, action, message)
}

impl CudaError {
    /// An error from its parts.
    pub fn new(
        kind: CudaErrorKind,
        action: &str,
        source_message: &str,
        file: &'static str,
        line: u32,
        module: &'static str,
    ) -> (e: CudaError)
        ensures
            e@ == (Fault {
                kind,
                action: action@,
                file: file@,
                line,
                module: module@,
                message: source_message@,
            }),
    {
        CudaError {
            kind,
            action: action.to_owned(),
            file,
            line,
            module,
            source_message: source_message.to_owned(),
        }
    }

    /// The one-line text of the error.
    pub open spec fn spec_describe(self) -> Seq<char> {
        self.kind.spec_name() + " error during "@ + self.action@ + " at "@ + self.module@ + ":"@
            + text::decimal(self.line as nat) + " ("@ + self.file@ + "): "@ + self.source_message@
    }

    /// The one-line text of the error.
    pub fn describe(&self) -> (s: String)
        ensures
            s@ == self.spec_describe(),
    {
        let mut s = self.kind.name().to_owned();
        s.append(" error during ");
        s.append(self.action.as_str());
        s.append(" at ");
        s.append(self.module);
        s.append(":");
        text::push_decimal(&mut s, self.line as u64);
        s.append(" (");
        s.append(self.file);
        s.append("): ");
        s.append(self.source_message.as_str());
        s
    }
}

/// Makes an error that this library itself raises.
pub fn raise(source: Source, kind: CudaErrorKind, action: &str, message: String) -> (e: CudaError)
    ensures
        e@ == fault(source, kind, action@, message@),
{
    CudaError {
        kind,
        action: action.to_owned(),
        file: source.file(),
        line: 0,
        module: source.module(),
        source_message: message,
    }
}

/// Makes an `InvalidInput` error that this library itself raises.
pub fn raise_invalid(source: Source, action: &str, message: String) -> (e: CudaError)
    ensures
        e@ == invalid(source, action@, message@),
{
    raise(source, CudaErrorKind::InvalidInput, action, message)
}

/// Makes an `Unsupported` error that this library itself raises.
pub fn raise_unsupported(source: Source, action: &str, message: String) -> (e: CudaError)
    ensures
        e@ == unsupported(source, action@, message@),
{
    raise(source, CudaErrorKind::Unsupported, action, message)
}

/// An error taken over from a lower layer, whose text is `cause`.
pub fn wrap_error(
    kind: CudaErrorKind,
    action: &str,
    cause: &str,
    file: &'static str,
    line: u32,
    module: &'static str,
) -> (e: CudaError)
    ensures
        e@ == (Fault {
            kind,
            action: action@,
            file: file@,
            line,
            module: module@,
            message: cause@,
        }),
{
    CudaError::new(kind, action, cause, file, line, module)
}

/// Kinds of errors have different names.
pub proof fn kinds_are_told_apart(a: CudaErrorKind, b: CudaErrorKind)
    requires
        a.spec_name() == b.spec_name(),
    ensures
        a == b,
{
    reveal_strlit("Driver");
    reveal_strlit("Runtime");
    reveal_strlit("Nvrtc");
    reveal_strlit("Io");
    reveal_strlit("InvalidInput");
    reveal_strlit("Unsupported");
    reveal_strlit("Internal");
    assert("Driver"@.len() == 6 && "Runtime"@.len() == 7 && "Nvrtc"@.len() == 5);
    assert("Io"@.len() == 2 && "InvalidInput"@.len() == 12 && "Unsupported"@.len() == 11);
    assert("Internal"@.len() == 8);
}

/// An error says what was done, where and why it failed.
pub proof fn errors_say_what_and_why(e: CudaError)
    ensures
        text::contains_text(e.spec_describe(), e.action@),
        text::contains_text(e.spec_describe(), e.module@ + ":"@ + text::decimal(e.line as nat)),
        text::ends_with_text(e.spec_describe(), e.source_message@),
        text::occurs_at(e.spec_describe(), e.kind.spec_name(), 0),
{
    let s = e.spec_describe();
    let k = e.kind.spec_name();
    let head = k + " error during "@;
    let place = e.module@ + ":"@ + text::decimal(e.line as nat);
    let mid = head + e.action@ + " at "@;
    let tail = " ("@ + e.file@ + "): "@ + e.source_message@;
    assert(s == mid + place + tail);
    text::middles_are_contained(mid, place, tail);
    assert(s == head + e.action@ + (" at "@ + place + tail));
    text::middles_are_contained(head, e.action@, " at "@ + place + tail);
    assert(s.subrange(0, k.len() as int) == k);
    assert(s.subrange(s.len() - e.source_message@.len(), s.len() as int) == e.source_message@);
}

} // verus!
