//! CUDA devices, streams and buffers: what is selected, checked and shown before
//! the driver is called.

use crate::error;
use crate::error::CudaError;
use crate::quant;
use crate::text;
use vstd::prelude::*;
use vstd::string::*;

verus! {

/// What is known of a CUDA device.
#[derive(Debug, Clone)]
pub struct CudaDeviceInfo {
    pub ordinal: usize,
    pub name: String,
    pub total_global_mem_bytes: usize,
    pub compute_capability_major: i32,
    pub compute_capability_minor: i32,
    pub driver_version: i32,
    pub runtime_version: i32,
}

// ---------------------------------------------------------------------------
// Versions
// ---------------------------------------------------------------------------

/// The size of a number without its sign.
pub open spec fn magnitude(v: i32) -> nat {
    (if v < 0 {
        -v
    } else {
        v as int
    }) as nat
}

/// A number with its sign.
pub open spec fn signed_text(negative: bool, size: nat) -> Seq<char> {
    if negative && size > 0 {
        "-"@ + text::decimal(size)
    } else {
        text::decimal(size)
    }
}

/// A version number: thousands, tens and ones. All parts have the sign of the
/// whole.
pub open spec fn version_text(v: i32) -> Seq<char> {
    let m = magnitude(v);
    signed_text(v < 0, m / 1000) + "."@ + signed_text(v < 0, m % 1000 / 10) + "."@ + signed_text(
        v < 0,
        m % 10,
    )
}

fn push_signed(out: &mut String, negative: bool, size: u64)
    ensures
        final(out)@ == old(out)@ + signed_text(negative, size as nat),
{
    let ghost was = out@;
    if negative && size > 0 {
        out.append("-");
        text::push_decimal(out, size);
        assert(was + "-"@ + text::decimal(size as nat) == was + ("-"@ + text::decimal(size as nat)));
    } else {
        text::push_decimal(out, size);
    }
}

/// A version number as text.
pub fn format_cuda_version(version: i32) -> (s: String)
    ensures
        s@ == version_text(version),
{
    let negative = version < 0;
    let m: u64 = if negative {
        (-(version as i64)) as u64
    } else {
        version as u64
    };
    let mut s = String::new();
    push_signed(&mut s, negative, m / 1000);
    assert(s@ == signed_text(negative, (m / 1000) as nat));
    s.append(".");
    push_signed(&mut s, negative, m % 1000 / 10);
    s.append(".");
    push_signed(&mut s, negative, m % 10);
    s
}

impl CudaDeviceInfo {
    /// The driver's version.
    pub fn driver_version_string(&self) -> (s: String)
        ensures
            s@ == version_text(self.driver_version),
    {
        format_cuda_version(self.driver_version)
    }

    /// The runtime's version.
    pub fn runtime_version_string(&self) -> (s: String)
        ensures
            s@ == version_text(self.runtime_version),
    {
        format_cuda_version(self.runtime_version)
    }
}

// ---------------------------------------------------------------------------
// Names
// ---------------------------------------------------------------------------

/// The byte of a C character.
pub open spec fn byte_of(c: i8) -> u8 {
    (if c < 0 {
        c + 256
    } else {
        c as int
    }) as u8
}

/// The bytes of a C string: those before the first zero.
pub open spec fn c_bytes(raw: Seq<i8>) -> Seq<u8>
    decreases raw.len(),
{
    if raw.len() == 0 || raw[0] == 0 {
        Seq::empty()
    } else {
        seq![byte_of(raw[0])] + c_bytes(raw.skip(1))
    }
}

/// The bytes of a C string.
pub fn name_bytes(raw: &[i8]) -> (bytes: Vec<u8>)
    ensures
        bytes@ == c_bytes(raw@),
{
    let mut bytes: Vec<u8> = Vec::new();
    let mut i: usize = 0;
    assert(raw@.skip(0) == raw@);
    assert(Seq::<u8>::empty() + c_bytes(raw@) == c_bytes(raw@));
    while i < raw.len() && raw[i] != 0
        invariant
            i <= raw@.len(),
            c_bytes(raw@) == bytes@ + c_bytes(raw@.skip(i as int)),
        decreases raw@.len() - i,
    {
        let c: i8 = raw[i];
        let b: u8 = if c < 0 {
            (c as i16 + 256) as u8
        } else {
            c as u8
        };
        proof {
            assert(raw@.skip(i as int)[0] == c);
            assert(raw@.skip(i as int).skip(1) == raw@.skip(i + 1));
            assert(bytes@ + (seq![b] + c_bytes(raw@.skip(i + 1))) == bytes@.push(b) + c_bytes(
                raw@.skip(i + 1),
            ));
        }
        bytes.push(b);
        i = i + 1;
    }
    proof {
        if i < raw@.len() {
            assert(raw@.skip(i as int)[0] == 0);
        }
        assert(c_bytes(raw@.skip(i as int)) == Seq::<u8>::empty());
        assert(bytes@ + Seq::<u8>::empty() == bytes@);
    }
    bytes
}

/// The text that bytes stand for in UTF-8, with a replacement character for each
/// sequence that stands for none. It is a function of the bytes alone.
pub uninterp spec fn utf8_lossy(bytes: Seq<u8>) -> Seq<char>;

/// `String::from_utf8_lossy`: the text that the bytes stand for. How bytes are
/// decoded, and which are replaced, is not stated.
#[verifier::external_body]
fn decode_lossy(bytes: &[u8]) -> (s: String)
    ensures
        s@ == utf8_lossy(bytes@),
{
    String::from_utf8_lossy(bytes).into_owned()
}

/// The name of a device: the text of its C string, without white space around it.
pub fn decode_device_name(raw: &[i8]) -> (s: String)
    ensures
        s@ == text::trimmed(utf8_lossy(c_bytes(raw@))),
{
    let bytes = name_bytes(raw);
    let name = decode_lossy(bytes.as_slice());
    text::trim_text(name.as_str())
}

// ---------------------------------------------------------------------------
// Devices
// ---------------------------------------------------------------------------

/// The architecture to compile for, by the device's compute capability.
pub open spec fn arch_of(major: i32, minor: i32) -> Option<Seq<char>> {
    if major == 5 && minor == 0 {
        Some("compute_50"@)
    } else if major == 5 && minor == 2 {
        Some("compute_52"@)
    } else if major == 6 && minor == 0 {
        Some("compute_60"@)
    } else if major == 6 && minor == 1 {
        Some("compute_61"@)
    } else if major == 7 && minor == 0 {
        Some("compute_70"@)
    } else if major == 7 && minor == 5 {
        Some("compute_75"@)
    } else if major == 8 && minor == 0 {
        Some("compute_80"@)
    } else if major == 8 && minor == 6 {
        Some("compute_86"@)
    } else if major == 8 && minor == 9 {
        Some("compute_89"@)
    } else if major == 9 && minor == 0 {
        Some("compute_90"@)
    } else {
        None
    }
}

/// The architecture to compile for. Where it is not known the compiler decides.
pub fn compute_arch_literal(major: i32, minor: i32) -> (arch: Option<&'static str>)
    ensures
        match arch {
            Some(a) => arch_of(major, minor) == Some(a@),
            None => arch_of(major, minor) is None,
        },
{
    match (major, minor) {
        (5, 0) => Some("compute_50"),
        (5, 2) => Some("compute_52"),
        (6, 0) => Some("compute_60"),
        (6, 1) => Some("compute_61"),
        (7, 0) => Some("compute_70"),
        (7, 5) => Some("compute_75"),
        (8, 0) => Some("compute_80"),
        (8, 6) => Some("compute_86"),
        (8, 9) => Some("compute_89"),
        (9, 0) => Some("compute_90"),
        _ => None,
    }
}

/// The first device with the ordinal, at or after `from`.
pub open spec fn device_from(devices: Seq<CudaDeviceInfo>, ordinal: usize, from: int) -> Option<int>
    decreases devices.len() - from,
{
    if from < 0 || from >= devices.len() {
        None
    } else if devices[from].ordinal == ordinal {
        Some(from)
    } else {
        device_from(devices, ordinal, from + 1)
    }
}

/// No device has the ordinal.
pub open spec fn device_fault(ordinal: usize) -> error::Fault {
    error::invalid(
        error::Source::Device,
        "select CUDA device ordinal "@ + text::decimal(ordinal as nat),
        "device ordinal is out of range"@,
    )
}

/// Where the device with an ordinal stands in a list.
pub fn select_device(devices: &[CudaDeviceInfo], ordinal: usize) -> (r: Result<usize, CudaError>)
    ensures
        match r {
            Ok(i) => device_from(devices@, ordinal, 0) == Some(i as int),
            Err(e) => device_from(devices@, ordinal, 0) is None && e@ == device_fault(ordinal),
        },
{
    let mut i: usize = 0;
    while i < devices.len()
        invariant
            i <= devices@.len(),
            device_from(devices@, ordinal, 0) == device_from(devices@, ordinal, i as int),
        decreases devices@.len() - i,
    {
        if devices[i].ordinal == ordinal {
            return Ok(i);
        }
        i = i + 1;
    }
    let mut action = "select CUDA device ordinal ".to_owned();
    text::push_usize(&mut action, ordinal);
    Err(
        error::raise_invalid(
            error::Source::Device,
            action.as_str(),
            "device ordinal is out of range".to_owned(),
        ),
    )
}

/// Which device to use, and with how many streams.
#[derive(Debug, Clone, Copy, PartialEq, Eq, Structural)]
pub struct CudaBackendBuilder {
    pub device_ordinal: usize,
    pub stream_count: usize,
}

/// At least one.
pub open spec fn at_least_one(n: usize) -> usize {
    if n >= 1 {
        n
    } else {
        1
    }
}

impl Default for CudaBackendBuilder {
    /// The first device, with one stream.
    fn default() -> (b: CudaBackendBuilder)
        ensures
            b == (CudaBackendBuilder { device_ordinal: 0, stream_count: 1 }),
    {
        CudaBackendBuilder { device_ordinal: 0, stream_count: 1 }
    }
}

impl CudaBackendBuilder {
    /// The first device, with one stream.
    pub fn new() -> (b: CudaBackendBuilder)
        ensures
            b == (CudaBackendBuilder { device_ordinal: 0, stream_count: 1 }),
    {
        CudaBackendBuilder { device_ordinal: 0, stream_count: 1 }
    }

    /// The same with another device.
    pub fn device_ordinal(self, device_ordinal: usize) -> (b: CudaBackendBuilder)
        ensures
            b == (CudaBackendBuilder { device_ordinal, ..self }),
    {
        CudaBackendBuilder { device_ordinal, stream_count: self.stream_count }
    }

    /// The same with another number of streams, at least one.
    pub fn stream_count(self, stream_count: usize) -> (b: CudaBackendBuilder)
        ensures
            b == (CudaBackendBuilder { stream_count: at_least_one(stream_count), ..self }),
    {
        CudaBackendBuilder {
            device_ordinal: self.device_ordinal,
            stream_count: pool_size(stream_count),
        }
    }
}

// ---------------------------------------------------------------------------
// Streams and buffers
// ---------------------------------------------------------------------------

/// How many streams a pool has: those asked for, at least one.
pub fn pool_size(stream_count: usize) -> (n: usize)
    ensures
        n == at_least_one(stream_count),
{
    if stream_count >= 1 {
        stream_count
    } else {
        1
    }
}

/// A pool has no stream of that number.
pub open spec fn stream_fault(index: usize, len: usize) -> Option<error::Fault> {
    if index < len {
        None
    } else {
        Some(
            error::invalid(
                error::Source::Device,
                "select CUDA stream "@ + text::decimal(index as nat),
                "stream index out of range; pool len="@ + text::decimal(len as nat),
            ),
        )
    }
}

/// Checks that a pool has a stream of that number.
pub fn check_stream(index: usize, len: usize) -> (r: Result<(), CudaError>)
    ensures
        match r {
            Ok(_) => stream_fault(index, len) is None,
            Err(e) => stream_fault(index, len) == Some(e@),
        },
{
    if index < len {
        return Ok(());
    }
    let mut action = "select CUDA stream ".to_owned();
    text::push_usize(&mut action, index);
    let mut m = "stream index out of range; pool len=".to_owned();
    text::push_usize(&mut m, len);
    Err(error::raise_invalid(error::Source::Device, action.as_str(), m))
}

/// Two sizes differ.
pub open spec fn size_fault(
    action: Seq<char>,
    first: Seq<char>,
    a: usize,
    second: Seq<char>,
    b: usize,
) -> Option<error::Fault> {
    if a == b {
        None
    } else {
        Some(
            error::invalid(
                error::Source::Device,
                action,
                quant::two_number_text(first, a as nat, second, b as nat),
            ),
        )
    }
}

fn check_size(action: &str, first: &str, a: usize, second: &str, b: usize) -> (r: Result<
    (),
    CudaError,
>)
    ensures
        match r {
            Ok(_) => size_fault(action@, first@, a, second@, b) is None,
            Err(e) => size_fault(action@, first@, a, second@, b) == Some(e@),
        },
{
    if a == b {
        return Ok(());
    }
    Err(
        error::raise_invalid(
            error::Source::Device,
            action,
            quant::two_number_message(first, a, second, b),
        ),
    )
}

/// A device buffer does not fit a pinned host buffer.
pub open spec fn pinned_copy_fault(src: usize, dst: usize) -> Option<error::Fault> {
    size_fault(
        "validate async D2H destination size"@,
        "device len "@,
        src,
        " != pinned host len "@,
        dst,
    )
}

/// Checks that a device buffer can be copied to a pinned host buffer.
pub fn validate_pinned_copy(src: usize, dst: usize) -> (r: Result<(), CudaError>)
    ensures
        match r {
            Ok(_) => pinned_copy_fault(src, dst) is None,
            Err(e) => pinned_copy_fault(src, dst) == Some(e@),
        },
{
    check_size(
        "validate async D2H destination size",
        "device len ",
        src,
        " != pinned host len ",
        dst,
    )
}

/// A device buffer does not fit another.
pub open spec fn device_copy_fault(src: usize, dst: usize) -> Option<error::Fault> {
    size_fault("validate async D2D destination size"@, "src len "@, src, " != dst len "@, dst)
}

/// Checks that a device buffer can be copied to another.
pub fn validate_device_copy(src: usize, dst: usize) -> (r: Result<(), CudaError>)
    ensures
        match r {
            Ok(_) => device_copy_fault(src, dst) is None,
            Err(e) => device_copy_fault(src, dst) == Some(e@),
        },
{
    check_size("validate async D2D destination size", "src len ", src, " != dst len ", dst)
}

/// What is wrong with the buffers of a matrix-vector product.
pub open spec fn smoke_fault(
    matrix: usize,
    vector: usize,
    out: usize,
    rows: usize,
    cols: usize,
) -> Option<error::Fault> {
    if matrix != rows * cols {
        size_fault(
            "validate smoke_gemv_f32 matrix shape"@,
            "matrix len "@,
            matrix,
            " != rows*cols "@,
            (rows * cols) as usize,
        )
    } else if vector != cols {
        size_fault(
            "validate smoke_gemv_f32 vector shape"@,
            "vector len "@,
            vector,
            " != cols "@,
            cols,
        )
    } else {
        size_fault(
            "validate smoke_gemv_f32 output shape"@,
            "output len "@,
            out,
            " != rows "@,
            rows,
        )
    }
}

/// Checks the buffers of a matrix-vector product.
pub fn validate_smoke_gemv(
    matrix: usize,
    vector: usize,
    out: usize,
    rows: usize,
    cols: usize,
) -> (r: Result<(), CudaError>)
    requires
        rows * cols <= usize::MAX,
    ensures
        match r {
            Ok(_) => smoke_fault(matrix, vector, out, rows, cols) is None,
            Err(e) => smoke_fault(matrix, vector, out, rows, cols) == Some(e@),
        },
{
    let cells: usize = rows * cols;
    match check_size(
        "validate smoke_gemv_f32 matrix shape",
        "matrix len ",
        matrix,
        " != rows*cols ",
        cells,
    ) {
        Ok(_) => {},
        Err(e) => {
            return Err(e);
        },
    }
    match check_size(
        "validate smoke_gemv_f32 vector shape",
        "vector len ",
        vector,
        " != cols ",
        cols,
    ) {
        Ok(_) => {},
        Err(e) => {
            return Err(e);
        },
    }
    check_size("validate smoke_gemv_f32 output shape", "output len ", out, " != rows ", rows)
}

/// The buffers are accepted exactly when they have the sizes of the product.
pub proof fn smoke_sizes(matrix: usize, vector: usize, out: usize, rows: usize, cols: usize)
    requires
        rows * cols <= usize::MAX,
    ensures
        smoke_fault(matrix, vector, out, rows, cols) is None <==> (matrix == rows * cols && vector
            == cols && out == rows),
{
}

/// Setting the device leaves the streams, and setting the streams leaves the
/// device; there is always a stream.
pub proof fn builder_sets_apart(b: CudaBackendBuilder, ordinal: usize, streams: usize)
    ensures
        at_least_one(streams) >= 1,
        (CudaBackendBuilder { device_ordinal: ordinal, ..b }).stream_count == b.stream_count,
        (CudaBackendBuilder {
            stream_count: at_least_one(streams),
            ..b
        }).device_ordinal == b.device_ordinal,
{
}

// ---------------------------------------------------------------------------
// Attention and foreign callers
// ---------------------------------------------------------------------------

/// The attention kernels, which do not exist yet.
#[derive(Debug, Clone, Copy)]
pub struct AttentionBackend {}

impl Default for AttentionBackend {
    fn default() -> (a: AttentionBackend)
        ensures
            a == (AttentionBackend {  }),
    {
        AttentionBackend {  }
    }
}

impl AttentionBackend {
    /// A backend without kernels.
    pub fn new() -> (a: AttentionBackend)
        ensures
            a == (AttentionBackend {  }),
    {
        AttentionBackend {  }
    }

    /// Says that attention is not supported.
    pub fn status(&self) -> (r: Result<(), CudaError>)
        ensures
            match r {
                Ok(_) => false,
                Err(e) => e@ == error::unsupported(
                    error::Source::Device,
                    "initialize CUDA attention backend"@,
                    "attention kernels are intentionally not implemented in the first skeleton"@,
                ),
            },
    {
        Err(
            error::raise_unsupported(
                error::Source::Device,
                "initialize CUDA attention backend",
                "attention kernels are intentionally not implemented in the first skeleton".to_owned(),
            ),
        )
    }
}

/// Which device a foreign caller asks for, and with how many streams.
#[derive(Debug, Clone, Copy, PartialEq, Eq, Structural)]
pub struct BackendInitOptions {
    pub device_ordinal: usize,
    pub stream_count: usize,
}

impl Default for BackendInitOptions {
    /// The first device, with one stream.
    fn default() -> (o: BackendInitOptions)
        ensures
            o == (BackendInitOptions { device_ordinal: 0, stream_count: 1 }),
    {
        BackendInitOptions { device_ordinal: 0, stream_count: 1 }
    }
}

/// What a foreign caller is told of a device.
#[derive(Debug, Clone, Copy, PartialEq, Eq, Structural)]
pub struct BackendDeviceInfo {
    pub ordinal: usize,
    pub total_global_mem_bytes: usize,
    pub compute_capability_major: i32,
    pub compute_capability_minor: i32,
}

/// The code of an architecture is made of the digits of its version.
pub proof fn architectures_are_spelled_out(major: i32, minor: i32)
    ensures
        arch_of(major, minor) matches Some(a) ==> 5 <= major <= 9 && 0 <= minor <= 9 && a
            == "compute_"@ + text::decimal(major as nat) + text::decimal(minor as nat),
        minor == 0 && 5 <= major <= 9 ==> arch_of(major, minor) is Some,
{
    reveal_strlit("compute_");
    reveal_strlit("compute_50");
    reveal_strlit("compute_52");
    reveal_strlit("compute_60");
    reveal_strlit("compute_61");
    reveal_strlit("compute_70");
    reveal_strlit("compute_75");
    reveal_strlit("compute_80");
    reveal_strlit("compute_86");
    reveal_strlit("compute_89");
    reveal_strlit("compute_90");
    if let Some(a) = arch_of(major, minor) {
        let want = "compute_"@ + text::decimal(major as nat) + text::decimal(minor as nat);
        assert(text::decimal(major as nat) == seq![text::digit_char(major as nat)]);
        assert(text::decimal(minor as nat) == seq![text::digit_char(minor as nat)]);
        assert(a == want);
    }
}

/// A version is told as its thousands, the two digits behind them without a
/// leading zero, and the last digit.
pub proof fn versions_are_told(major: nat, minor: nat, patch: nat)
    requires
        minor < 100,
        patch < 10,
        1000 * major + 10 * minor + patch <= i32::MAX,
    ensures
        version_text((1000 * major + 10 * minor + patch) as i32) == text::decimal(major) + "."@
            + text::decimal(minor) + "."@ + text::decimal(patch),
{
    let v = (1000 * major + 10 * minor + patch) as i32;
    assert(magnitude(v) / 1000 == major);
    assert(magnitude(v) % 1000 / 10 == minor);
    assert(magnitude(v) % 10 == patch);
}

/// A device is selected exactly when one has the ordinal, and then the first such
/// one is.
pub proof fn the_first_device_is_selected(devices: Seq<CudaDeviceInfo>, ordinal: usize)
    ensures
        match device_from(devices, ordinal, 0) {
            Some(i) => 0 <= i < devices.len() && devices[i].ordinal == ordinal && forall|j: int|
                0 <= j < i ==> (#[trigger] devices[j]).ordinal != ordinal,
            None => forall|j: int|
                0 <= j < devices.len() ==> (#[trigger] devices[j]).ordinal != ordinal,
        },
{
    lemma_first_device(devices, ordinal, 0);
}

proof fn lemma_first_device(devices: Seq<CudaDeviceInfo>, ordinal: usize, from: int)
    requires
        0 <= from <= devices.len(),
    ensures
        match device_from(devices, ordinal, from) {
            Some(i) => from <= i < devices.len() && devices[i].ordinal == ordinal && forall|j: int|
                from <= j < i ==> (#[trigger] devices[j]).ordinal != ordinal,
            None => forall|j: int|
                from <= j < devices.len() ==> (#[trigger] devices[j]).ordinal != ordinal,
        },
    decreases devices.len() - from,
{
    if from < devices.len() {
        lemma_first_device(devices, ordinal, from + 1);
    }
}

/// A stream is refused exactly when the pool has no such one, and copies exactly
/// when the two sides differ in size. A pool is never empty, and no larger than
/// asked for unless nothing was.
pub proof fn streams_and_copies_accepted(index: usize, len: usize, src: usize, dst: usize)
    ensures
        stream_fault(index, len) is None <==> index < len,
        pinned_copy_fault(src, dst) is None <==> src == dst,
        device_copy_fault(src, dst) is None <==> src == dst,
        at_least_one(len) > 0,
        len > 0 ==> at_least_one(len) == len,
        len == 0 ==> at_least_one(len) == 1,
{
}

/// The byte has the bits of the signed byte, which is not zero.
pub open spec fn shows(b: u8, c: i8) -> bool {
    c != 0 && (b == c || b == c + 256)
}

/// The bytes of a device's name are those before the first zero, bit for bit.
pub proof fn names_end_at_the_first_zero(raw: Seq<i8>, bytes: Seq<u8>)
    requires
        bytes == c_bytes(raw),
    ensures
        bytes.len() <= raw.len(),
        bytes.len() < raw.len() ==> raw[bytes.len() as int] == 0,
        forall|i: int| 0 <= i < bytes.len() ==> shows(#[trigger] bytes[i], raw[i]),
    decreases raw.len(),
{
    if raw.len() > 0 && raw[0] != 0 {
        let rest = raw.skip(1);
        let tail = c_bytes(rest);
        names_end_at_the_first_zero(rest, tail);
        assert forall|i: int| 0 <= i < bytes.len() implies shows(#[trigger] bytes[i], raw[i]) by {
            if i > 0 {
                assert(bytes[i] == tail[i - 1]);
                assert(rest[i - 1] == raw[i]);
            } else {
                assert(bytes[0] == byte_of(raw[0]));
            }
        }
        if bytes.len() < raw.len() {
            assert(rest[tail.len() as int] == raw[bytes.len() as int]);
        }
    }
}

/// An ordinal that no device has is named in the error.
pub proof fn missing_devices_are_named(ordinal: usize)
    ensures
        device_fault(ordinal).kind is InvalidInput,
        text::ends_with_text(device_fault(ordinal).action, text::decimal(ordinal as nat)),
        device_fault(ordinal).message == "device ordinal is out of range"@,
{
    let s = device_fault(ordinal).action;
    let d = text::decimal(ordinal as nat);
    assert(s.subrange(s.len() - d.len(), s.len() as int) == d);
}

/// A number has its sign in front, and zero has none.
pub proof fn signs_stand_in_front(size: nat)
    ensures
        signed_text(false, size) == text::decimal(size),
        size > 0 ==> signed_text(true, size) == "-"@ + text::decimal(size),
        signed_text(true, 0) == text::decimal(0),
{
}

/// What is said of a copy names the length of its source first.
pub proof fn copied_lengths_are_named(src: usize, dst: usize, index: usize, len: usize)
    ensures
        src != dst ==> {
            let m = pinned_copy_fault(src, dst)->0.message;
            &&& text::occurs_at(m, "device len "@ + text::decimal(src as nat), 0)
            &&& text::ends_with_text(m, " != pinned host len "@ + text::decimal(dst as nat))
        },
        index >= len ==> {
            let f = stream_fault(index, len)->0;
            &&& text::ends_with_text(f.action, text::decimal(index as nat))
            &&& text::ends_with_text(f.message, "pool len="@ + text::decimal(len as nat))
        },
{
    quant::two_numbers_are_told(
        "device len "@,
        src as nat,
        " != pinned host len "@,
        dst as nat,
    );
    if index >= len {
        let f = stream_fault(index, len)->0;
        let (d, e) = (text::decimal(index as nat), text::decimal(len as nat));
        assert(f.action.subrange(f.action.len() - d.len(), f.action.len() as int) == d);
        reveal_strlit("stream index out of range; pool len=");
        reveal_strlit("pool len=");
        let head = "stream index out of range; pool len="@;
        assert(head.subrange(27, 36) == "pool len="@);
        let tail = "pool len="@ + e;
        assert(f.message == head.subrange(0, 27) + tail);
        assert(f.message.subrange(f.message.len() - tail.len(), f.message.len() as int) == tail);
    }
}

} // verus!
