//! Options, readiness modes and errors of a shared-memory channel, and the
//! decisions taken on the return codes of the channel's C library.
use vstd::prelude::*;

use crate::text::{hex, push_char, push_hex, push_signed_decimal, push_str, signed_decimal};

verus! {

pub const KZ_OK: i32 = 0;
pub const KZ_INVALID: i32 = -1;
pub const KZ_FAIL: i32 = -2;
pub const KZ_CLOSED: i32 = -3;
pub const KZ_TOOBIG: i32 = -4;
pub const KZ_AGAIN: i32 = -5;
pub const KZ_BUSY: i32 = -6;
pub const KZ_TIMEOUT: i32 = -7;

pub const KZ_CREATE: i32 = 0x10000;
pub const KZ_EXCL: i32 = 0x20000;
pub const KZ_RESET: i32 = 0x40000;

pub const KZ_READ: i32 = 1;
pub const KZ_WRITE: i32 = 2;
pub const KZ_BOTH: i32 = 3;

/// Maximum size in bytes of the queue in a channel.
pub const KZ_MAX_SIZE: usize = 0xFFFF_FFFF;

/// Default permission bits of a channel file.
pub const DEFAULT_PERM: u32 = 0o644;

/// Builder for creating a new channel or opening an existing one.
pub struct OpenOptions {
    flags: i32,
    perm: u32,
    bufsize: usize,
}

impl OpenOptions {
    pub closed spec fn spec_flags(&self) -> i32 {
        self.flags
    }

    pub closed spec fn spec_perm(&self) -> u32 {
        self.perm
    }

    pub closed spec fn spec_bufsize(&self) -> usize {
        self.bufsize
    }

    /// Options with no flags, permission 0o644 and buffer size 0.
    pub fn new() -> (r: Self)
        ensures
            r.spec_flags() == 0,
            r.spec_perm() == DEFAULT_PERM,
            r.spec_bufsize() == 0,
    {
        Self { flags: 0, perm: DEFAULT_PERM, bufsize: 0 }
    }

    /// Create the channel if it does not exist, with queues of `bufsize` bytes.
    pub fn create(self, create: bool, bufsize: usize) -> (r: Self)
        ensures
            r.spec_flags() == (self.spec_flags() | if create { KZ_CREATE } else { 0 }),
            r.spec_perm() == self.spec_perm(),
            r.spec_bufsize() == bufsize,
    {
        Self { flags: self.flags | if create { KZ_CREATE } else { 0 }, perm: self.perm, bufsize }
    }

    /// Set the permission bits of the channel file.
    pub fn perm(self, perm: u32) -> (r: Self)
        ensures
            r.spec_flags() == self.spec_flags(),
            r.spec_perm() == perm,
            r.spec_bufsize() == self.spec_bufsize(),
    {
        Self { flags: self.flags, perm, bufsize: self.bufsize }
    }

    /// Create a new channel, failing if it already exists.
    pub fn create_new(self, create: bool, bufsize: usize) -> (r: Self)
        ensures
            r.spec_flags() == (self.spec_flags() | if create {
                KZ_CREATE | KZ_EXCL
            } else {
                0
            }),
            r.spec_perm() == self.spec_perm(),
            r.spec_bufsize() == bufsize,
    {
        Self {
            flags: self.flags | if create {
                KZ_CREATE | KZ_EXCL
            } else {
                0
            },
            perm: self.perm,
            bufsize,
        }
    }

    /// Reset the channel after it is opened.
    pub fn reset(self) -> (r: Self)
        ensures
            r.spec_flags() == (self.spec_flags() | KZ_RESET),
            r.spec_perm() == self.spec_perm(),
            r.spec_bufsize() == self.spec_bufsize(),
    {
        Self { flags: self.flags | KZ_RESET, perm: self.perm, bufsize: self.bufsize }
    }

    /// The flag word handed to the open call: the flags with the permission
    /// bits in the low bits.
    pub fn open_flags(&self) -> (r: i32)
        ensures
            r == (self.spec_flags() | (self.spec_perm() as i32)),
    {
        self.flags | self.perm as i32
    }

    /// The queue size handed to the open call.
    pub fn bufsize(&self) -> (r: usize)
        ensures
            r == self.spec_bufsize(),
    {
        self.bufsize
    }
}

/// Whether a channel is ready for reading, writing or both.
#[derive(Clone, Copy, PartialEq, Eq, Structural)]
pub struct Mode(i32);

impl Mode {
    /// The raw readiness word.
    pub closed spec fn bits(&self) -> i32 {
        self.0
    }

    /// Not ready for reading nor writing.
    pub fn null() -> (r: Self)
        ensures
            r.bits() == 0,
    {
        Mode(0)
    }

    /// Ready for reading.
    pub fn read() -> (r: Self)
        ensures
            r.bits() == KZ_READ,
    {
        Mode(KZ_READ)
    }

    /// Ready for writing.
    pub fn write() -> (r: Self)
        ensures
            r.bits() == KZ_WRITE,
    {
        Mode(KZ_WRITE)
    }

    /// Ready for reading and writing.
    pub fn both() -> (r: Self)
        ensures
            r.bits() == KZ_BOTH,
    {
        Mode(KZ_BOTH)
    }

    /// The mode for a readiness word returned by the channel library.
    pub fn from_raw(raw: i32) -> (r: Self)
        ensures
            r.bits() == raw,
    {
        Mode(raw)
    }

    /// Add the read bit when `is_read` holds.
    pub fn with_read(self, is_read: bool) -> (r: Self)
        ensures
            r.bits() == (self.bits() | if is_read { KZ_READ } else { 0 }),
    {
        Mode(self.0 | if is_read { KZ_READ } else { 0 })
    }

    /// Add the write bit when `is_write` holds.
    pub fn with_write(self, is_write: bool) -> (r: Self)
        ensures
            r.bits() == (self.bits() | if is_write { KZ_WRITE } else { 0 }),
    {
        Mode(self.0 | if is_write { KZ_WRITE } else { 0 })
    }

    /// The mode allows reading.
    pub fn can_read(&self) -> (r: bool)
        ensures
            r == (self.bits() & KZ_READ != 0),
    {
        self.0 & KZ_READ != 0
    }

    /// The mode allows writing.
    pub fn can_write(&self) -> (r: bool)
        ensures
            r == (self.bits() & KZ_WRITE != 0),
    {
        self.0 & KZ_WRITE != 0
    }

    /// The mode allows reading or writing.
    pub fn is_ready(&self) -> (r: bool)
        ensures
            r == (self.bits() != 0),
    {
        self.0 != 0
    }

    /// The raw readiness word.
    pub fn as_raw(&self) -> (r: i32)
        ensures
            r == self.bits(),
    {
        self.0
    }

    /// Whether a channel whose closed bits are `closed` counts as closed for
    /// this mode: any closed bit for the null mode, otherwise all bits of
    /// the mode.
    pub fn is_closed_in(&self, closed: i32) -> (r: bool)
        ensures
            r == if self.bits() == 0 {
                closed != 0
            } else {
                (closed & self.bits()) == self.bits()
            },
    {
        if self.0 == 0 {
            return closed != 0;
        }
        (closed & self.0) == self.0
    }

    /// The mode as its debug text: `Mode(READ)`, `Mode(WRITE)`, `Mode(BOTH)`,
    /// or the raw word in hexadecimal, `Mode(0x..)`.
    pub fn debug_text(&self) -> (r: String)
        ensures
            r@ == if self.bits() == KZ_READ {
                "Mode(READ)"@
            } else if self.bits() == KZ_WRITE {
                "Mode(WRITE)"@
            } else if self.bits() == KZ_BOTH {
                "Mode(BOTH)"@
            } else {
                seq!['M', 'o', 'd', 'e', '(', '0', 'x'] + hex(self.bits() as u32 as nat) + seq![')']
            },
    {
        broadcast use vstd::string::group_string_axioms;

        if self.0 == KZ_READ {
            return "Mode(READ)".to_string();
        }
        if self.0 == KZ_WRITE {
            return "Mode(WRITE)".to_string();
        }
        if self.0 == KZ_BOTH {
            return "Mode(BOTH)".to_string();
        }
        let mut s = String::new();
        push_char(&mut s, 'M');
        push_char(&mut s, 'o');
        push_char(&mut s, 'd');
        push_char(&mut s, 'e');
        push_char(&mut s, '(');
        push_char(&mut s, '0');
        push_char(&mut s, 'x');
        push_hex(&mut s, self.0 as u32);
        push_char(&mut s, ')');
        assert(s@ =~= seq!['M', 'o', 'd', 'e', '(', '0', 'x'] + hex(self.0 as u32 as nat) + seq![')']);
        s
    }
}

/// Adding the read bit makes a mode readable and keeps its write bit;
/// adding the write bit makes it writable and keeps its read bit.
pub proof fn law_mode_bits(m: Mode, flag: bool)
    ensures
        (m.bits() | if flag { KZ_READ } else { 0 }) & KZ_READ != 0 <==> (flag || m.bits() & KZ_READ != 0),
        (m.bits() | if flag { KZ_READ } else { 0 }) & KZ_WRITE != 0 <==> m.bits() & KZ_WRITE != 0,
        (m.bits() | if flag { KZ_WRITE } else { 0 }) & KZ_WRITE != 0 <==> (flag || m.bits() & KZ_WRITE != 0),
        (m.bits() | if flag { KZ_WRITE } else { 0 }) & KZ_READ != 0 <==> m.bits() & KZ_READ != 0,
        KZ_BOTH & KZ_READ != 0 && KZ_BOTH & KZ_WRITE != 0,
{
    let x = m.bits();
    assert((x | 1i32) & 1i32 != 0) by (bit_vector);
    assert((x | 0i32) == x) by (bit_vector);
    assert(((x | 1i32) & 2i32 != 0) <==> (x & 2i32 != 0)) by (bit_vector);
    assert((x | 2i32) & 2i32 != 0) by (bit_vector);
    assert(((x | 2i32) & 1i32 != 0) <==> (x & 1i32 != 0)) by (bit_vector);
    assert(3i32 & 1i32 != 0 && 3i32 & 2i32 != 0) by (bit_vector);
}

/// `std::io::Error`, known to Verus as an opaque type.
#[verifier::external_type_specification]
#[verifier::external_body]
pub struct ExIoError(std::io::Error);

/// The error of the operating system's last failed call: `std::io::Error::last_os_error`.
/// Nothing is stated of the result: it depends on the calling thread's errno.
#[verifier::external_body]
fn last_os_error() -> std::io::Error {
    std::io::Error::last_os_error()
}

/// What `std::io::Error::other` returns for a message: an error of kind
/// `Other` carrying it.
pub uninterp spec fn io_error_other_of(msg: Seq<char>) -> std::io::Error;

/// An error of kind `Other` carrying `msg` (`std::io::Error::other`).
#[verifier::external_body]
fn io_error_other(msg: String) -> (r: std::io::Error)
    ensures
        r == io_error_other_of(msg@),
{
    std::io::Error::other(msg)
}

/// The text of an error (`to_string`, its `Display`). Nothing is stated
/// of it: for an operating-system error it is the C library's description,
/// which follows the process locale.
#[verifier::external_body]
fn io_error_text(e: &std::io::Error) -> (r: String) {
    e.to_string()
}

/// The message for a return code the channel library does not know:
/// `Unknown error(<code>)`.
pub open spec fn unknown_code_text(code: i32) -> Seq<char> {
    seq!['U', 'n', 'k', 'n', 'o', 'w', 'n', ' ', 'e', 'r', 'r', 'o', 'r', '('] + signed_decimal(
        code as int,
    ) + seq![')']
}

/// The message for a return code the channel library does not know.
pub fn unknown_code_message(code: i32) -> (r: String)
    ensures
        r@ == unknown_code_text(code),
{
    let mut s = String::new();
    let ghost s0 = s@;
    push_char(&mut s, 'U');
    push_char(&mut s, 'n');
    push_char(&mut s, 'k');
    push_char(&mut s, 'n');
    push_char(&mut s, 'o');
    push_char(&mut s, 'w');
    push_char(&mut s, 'n');
    push_char(&mut s, ' ');
    push_char(&mut s, 'e');
    push_char(&mut s, 'r');
    push_char(&mut s, 'r');
    push_char(&mut s, 'o');
    push_char(&mut s, 'r');
    push_char(&mut s, '(');
    push_signed_decimal(&mut s, code);
    push_char(&mut s, ')');
    assert(s@ =~= unknown_code_text(code));
    s
}

/// Errors of the channel library.
pub enum Error {
    NoError,
    Invalid,
    Fail(std::io::Error),
    Closed,
    TooBig,
    Again,
    Busy,
    Timeout,
}

/// Kinds of `std::io::Error` that channel errors are reported as.
#[derive(Clone, Copy, PartialEq, Eq, Structural)]
pub enum IoKind {
    Other,
    InvalidInput,
    BrokenPipe,
    OutOfMemory,
    WouldBlock,
    ResourceBusy,
    TimedOut,
}

/// The error for a return code other than `KZ_FAIL` and unknown codes.
pub open spec fn spec_error_of(code: i32) -> Option<Error> {
    if code == KZ_OK {
        Some(Error::NoError)
    } else if code == KZ_INVALID {
        Some(Error::Invalid)
    } else if code == KZ_CLOSED {
        Some(Error::Closed)
    } else if code == KZ_TOOBIG {
        Some(Error::TooBig)
    } else if code == KZ_AGAIN {
        Some(Error::Again)
    } else if code == KZ_BUSY {
        Some(Error::Busy)
    } else if code == KZ_TIMEOUT {
        Some(Error::Timeout)
    } else {
        None
    }
}

impl Error {
    /// The operating-system error of a `Fail`, if this is one.
    pub fn fail_error(&self) -> (r: Option<&std::io::Error>)
        ensures
            r is Some <==> self is Fail,
            r matches Some(e) ==> self matches Error::Fail(f) && *e == f,
    {
        match self {
            Error::Fail(err) => Some(err),
            _ => None,
        }
    }

    /// `Ok(ok)` for `KZ_OK`, otherwise the error of the code.
    pub fn get_result<T>(code: i32, ok: T) -> (r: Result<T, Error>)
        ensures
            code == KZ_OK ==> r == Ok::<T, Error>(ok),
            code != KZ_OK ==> (r matches Err(e) && (spec_error_of(code) matches Some(x) ==> e == x)
                && (spec_error_of(code) is None ==> e is Fail)),
    {
        if code == KZ_OK {
            Ok(ok)
        } else {
            Err(Error::from_retcode(code))
        }
    }

    /// The error for a return code of the channel library. `KZ_FAIL` carries
    /// the operating system's last error and unknown codes an error of kind
    /// `Other`.
    pub fn from_retcode(code: i32) -> (r: Self)
        ensures
            spec_error_of(code) matches Some(e) ==> r == e,
            spec_error_of(code) is None ==> r is Fail,
            spec_error_of(code) is None && code != KZ_FAIL ==> r == Error::Fail(
                io_error_other_of(unknown_code_text(code)),
            ),
    {
        if code == KZ_OK {
            Error::NoError
        } else if code == KZ_INVALID {
            Error::Invalid
        } else if code == KZ_FAIL {
            Self::last_os_error()
        } else if code == KZ_CLOSED {
            Error::Closed
        } else if code == KZ_TOOBIG {
            Error::TooBig
        } else if code == KZ_AGAIN {
            Error::Again
        } else if code == KZ_BUSY {
            Error::Busy
        } else if code == KZ_TIMEOUT {
            Error::Timeout
        } else {
            Error::Fail(io_error_other(unknown_code_message(code)))
        }
    }

    /// A `Fail` carrying the operating system's last error.
    pub fn last_os_error() -> (r: Self)
        ensures
            r is Fail,
    {
        Error::Fail(last_os_error())
    }

    /// The kind of `std::io::Error` this error converts to.
    pub fn io_kind(&self) -> (r: IoKind)
        ensures
            r == match self {
                Error::NoError => IoKind::Other,
                Error::Invalid => IoKind::InvalidInput,
                Error::Fail(_) => IoKind::Other,
                Error::Closed => IoKind::BrokenPipe,
                Error::TooBig => IoKind::OutOfMemory,
                Error::Again => IoKind::WouldBlock,
                Error::Busy => IoKind::ResourceBusy,
                Error::Timeout => IoKind::TimedOut,
            },
    {
        match self {
            Error::NoError => IoKind::Other,
            Error::Invalid => IoKind::InvalidInput,
            Error::Fail(_) => IoKind::Other,
            Error::Closed => IoKind::BrokenPipe,
            Error::TooBig => IoKind::OutOfMemory,
            Error::Again => IoKind::WouldBlock,
            Error::Busy => IoKind::ResourceBusy,
            Error::Timeout => IoKind::TimedOut,
        }
    }

    /// The error's message: a fixed text for each kind, and for `Fail` the
    /// operating-system error's own text after `OS Error: `.
    pub fn message(&self) -> (r: String)
        ensures
            match self {
                Error::NoError => r@ == "No error"@,
                Error::Invalid => r@ == "Invalid operation"@,
                Error::Fail(_) => "OS Error: "@.is_prefix_of(r@),
                Error::Closed => r@ == "Channel is closed"@,
                Error::TooBig => r@ == "Data is too big"@,
                Error::Again => r@ == "Try again"@,
                Error::Busy => r@ == "Resource is busy"@,
                Error::Timeout => r@ == "Operation timed out"@,
            },
    {
        broadcast use vstd::string::group_string_axioms;

        match self {
            Error::NoError => "No error".to_string(),
            Error::Invalid => "Invalid operation".to_string(),
            Error::Fail(e) => {
                let mut s = "OS Error: ".to_string();
                let ghost head = s@;
                push_str(&mut s, io_error_text(e).as_str());
                assert(s@.subrange(0, head.len() as int) =~= head);
                s
            },
            Error::Closed => "Channel is closed".to_string(),
            Error::TooBig => "Data is too big".to_string(),
            Error::Again => "Try again".to_string(),
            Error::Busy => "Resource is busy".to_string(),
            Error::Timeout => "Operation timed out".to_string(),
        }
    }

    /// The operating-system error a `Fail` carries, consuming the error.
    pub fn into_fail_error(self) -> (r: Option<std::io::Error>)
        ensures
            r is Some <==> self is Fail,
            r matches Some(e) ==> self matches Error::Fail(f) && e == f,
    {
        match self {
            Error::Fail(err) => Some(err),
            _ => None,
        }
    }
}

/// The result of an operation on a channel with the `Closed` error treated
/// as success.
pub fn with_closed_handled(r: Result<(), Error>) -> (out: Result<(), Error>)
    ensures
        match r {
            Ok(()) => out is Ok,
            Err(Error::Closed) => out is Ok,
            Err(e) => out == Err::<(), Error>(e),
        },
{
    match r {
        Ok(()) => Ok(()),
        Err(Error::Closed) => Ok(()),
        Err(e) => Err(e),
    }
}

/// The readiness returned by a wait call: a negative code is an error.
pub fn wait_result(r: i32) -> (out: Result<Mode, Error>)
    ensures
        r >= 0 ==> (out matches Ok(m) && m.bits() == r),
        r < 0 ==> (out matches Err(e) && (spec_error_of(r) matches Some(x) ==> e == x) && (
        spec_error_of(r) is None ==> e is Fail)),
{
    if r < 0 {
        return Err(Error::from_retcode(r));
    }
    Ok(Mode(r))
}

/// The outcome of creating a read or write context: `KZ_OK`, or `KZ_AGAIN`
/// when the context must be waited on before use; any other code is an
/// error.
pub fn context_result(r: i32) -> (out: Result<(), Error>)
    ensures
        (out is Ok) <==> (r == KZ_OK || r == KZ_AGAIN),
        out matches Err(e) ==> (spec_error_of(r) matches Some(x) ==> e == x) && (spec_error_of(
            r,
        ) is None ==> e is Fail),
{
    if r != KZ_OK && r != KZ_AGAIN {
        return Err(Error::from_retcode(r));
    }
    Ok(())
}

/// Whether a context may be read into a destination with `room` free
/// bytes: it must be a read context that need not wait, and its `len`
/// bytes must fit.
pub fn check_read(is_read: bool, would_block: bool, len: usize, room: usize) -> (out: Result<(), Error>)
    ensures
        !is_read || would_block ==> out matches Err(Error::Invalid),
        is_read && !would_block && room < len ==> out matches Err(Error::TooBig),
        (out is Ok) <==> (is_read && !would_block && room >= len),
{
    if !is_read || would_block {
        return Err(Error::Invalid);
    }
    if room < len {
        return Err(Error::TooBig);
    }
    Ok(())
}

/// Whether `len` bytes may be written into a context whose buffer has
/// `capacity` bytes: it must be a write context that need not wait, and the
/// bytes must fit.
pub fn check_write(is_read: bool, would_block: bool, capacity: usize, len: usize) -> (out: Result<(), Error>)
    ensures
        is_read || would_block ==> out matches Err(Error::Invalid),
        !is_read && !would_block && capacity < len ==> out matches Err(Error::TooBig),
        (out is Ok) <==> (!is_read && !would_block && capacity >= len),
{
    if is_read || would_block {
        return Err(Error::Invalid);
    }
    if capacity < len {
        return Err(Error::TooBig);
    }
    Ok(())
}

/// The answer to whether a channel file exists, from the return code of
/// the existence check and the owner and user process ids it reported.
pub fn exists_result(r: i32, owner: i32, user: i32) -> (out: Result<Option<(i32, i32)>, std::io::Error>)
    ensures
        (out is Err) <==> r < 0,
        r == 0 ==> out matches Ok(None),
        r > 0 ==> (out matches Ok(Some(p)) && p == (owner, user)),
{
    if r < 0 {
        return Err(last_os_error());
    }
    if r == 0 {
        return Ok(None);
    }
    Ok(Some((owner, user)))
}

} // verus!
