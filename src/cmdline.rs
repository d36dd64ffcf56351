use crate::state::Error as VmError;
use linux_loader::cmdline::Cmdline;
use linux_loader::cmdline::Error as CmdlineError;
use vstd::prelude::*;

verus! {

/// Capacity of the kernel command line, terminating nul included.
pub const CMDLINE_MAX_SIZE: usize = 0x10000;

#[verifier::external_type_specification]
#[verifier::external_body]
pub struct ExCmdline(Cmdline);

#[verifier::external_type_specification]
#[verifier::external_body]
pub struct ExCmdlineError(CmdlineError);

/// The boot arguments held by a command line.
pub uninterp spec fn cmdline_boot_args(c: Cmdline) -> Seq<char>;

/// The init arguments held by a command line.
pub uninterp spec fn cmdline_init_args(c: Cmdline) -> Seq<char>;

/// The capacity a command line was made with.
pub uninterp spec fn cmdline_capacity(c: Cmdline) -> nat;

/// A character that `str::trim` removes (Unicode White_Space).
pub open spec fn is_white_space(c: char) -> bool {
    ('\u{9}' <= c && c <= '\u{d}') || c == ' ' || c == '\u{85}' || c == '\u{a0}' || c
        == '\u{1680}' || ('\u{2000}' <= c && c <= '\u{200a}') || c == '\u{2028}' || c
        == '\u{2029}' || c == '\u{202f}' || c == '\u{205f}' || c == '\u{3000}'
}

/// `s` without its leading white space.
pub open spec fn trim_start(s: Seq<char>) -> Seq<char>
    decreases s.len(),
{
    if s.len() > 0 && is_white_space(s[0]) {
        trim_start(s.drop_first())
    } else {
        s
    }
}

/// `s` without its trailing white space.
pub open spec fn trim_end(s: Seq<char>) -> Seq<char>
    decreases s.len(),
{
    if s.len() > 0 && is_white_space(s.last()) {
        trim_end(s.drop_last())
    } else {
        s
    }
}

/// `s` without leading or trailing white space.
pub open spec fn trimmed(s: Seq<char>) -> Seq<char> {
    trim_end(trim_start(s))
}

/// Every character is printable ASCII (space to tilde).
pub open spec fn printable(s: Seq<char>) -> bool {
    forall|i: int| 0 <= i < s.len() ==> ' ' <= #[trigger] s[i] && s[i] <= '~'
}

/// Size of the nul-terminated command line with `boot` and `init` args.
pub open spec fn cmdline_size(boot: Seq<char>, init: Seq<char>) -> int {
    boot.len() + 1 + if init.len() > 0 {
        4 + init.len() as int
    } else {
        0int
    }
}

/// Boot arguments after `t` is appended, separated by a space.
pub open spec fn append_arg(boot: Seq<char>, t: Seq<char>) -> Seq<char> {
    if boot.len() == 0 {
        t
    } else {
        boot + seq![' '] + t
    }
}

/// Relies on `linux_loader::cmdline::Cmdline::new`: a capacity of zero is
/// refused; otherwise the command line starts empty with that capacity.
#[verifier::external_body]
fn cmdline_new(capacity: usize) -> (r: Result<Cmdline, CmdlineError>)
    ensures
        r is Err <==> capacity == 0,
        r matches Ok(c) ==> cmdline_boot_args(c) == Seq::<char>::empty() && cmdline_init_args(c)
            == Seq::<char>::empty() && cmdline_capacity(c) == capacity,
{
    Cmdline::new(capacity)
}

/// Relies on `linux_loader::cmdline::Cmdline::insert_str`: the argument is
/// trimmed, must be printable ASCII and must fit the capacity together with
/// a separating space; it is then appended to the boot arguments. On
/// failure the command line is unchanged. The capacity is counted in bytes,
/// which equals characters only while the held arguments are ASCII, hence
/// the precondition.
#[verifier::external_body]
fn cmdline_insert_str(c: &mut Cmdline, s: &str) -> (r: Result<(), CmdlineError>)
    requires
        printable(cmdline_boot_args(*old(c))),
        printable(cmdline_init_args(*old(c))),
    ensures
        r is Ok <==> printable(trimmed(s@)) && cmdline_size(
            cmdline_boot_args(*old(c)),
            cmdline_init_args(*old(c)),
        ) + (if cmdline_boot_args(*old(c)).len() > 0 {
            1int
        } else {
            0
        }) + trimmed(s@).len() <= cmdline_capacity(*old(c)),
        r is Ok ==> cmdline_boot_args(*final(c)) == append_arg(
            cmdline_boot_args(*old(c)),
            trimmed(s@),
        ) && cmdline_init_args(*final(c)) == cmdline_init_args(*old(c)) && cmdline_capacity(
            *final(c),
        ) == cmdline_capacity(*old(c)),
        r is Err ==> *final(c) == *old(c),
{
    c.insert_str(s)
}

/// Relies on `linux_loader::cmdline::Cmdline::as_cstring`: with no init
/// arguments and no nul character, the text is the boot arguments.
#[verifier::external_body]
fn cmdline_as_string(c: &Cmdline) -> (r: Result<String, CmdlineError>)
    ensures
        cmdline_init_args(*c).len() == 0 && !cmdline_boot_args(*c).contains('\0') ==> (r is Ok
            && r->Ok_0@ == cmdline_boot_args(*c)),
{
    c.as_cstring().map(|t| t.to_string_lossy().into_owned())
}

/// Boot arguments after each of `parts` is inserted in turn, or `None` once
/// one of them is refused.
pub open spec fn build_cmdline(parts: Seq<Seq<char>>, capacity: nat) -> Option<Seq<char>>
    decreases parts.len(),
{
    if parts.len() == 0 {
        Some(Seq::empty())
    } else {
        match build_cmdline(parts.drop_last(), capacity) {
            None => None,
            Some(boot) => {
                let t = trimmed(parts.last());
                if printable(t) && cmdline_size(boot, Seq::empty()) + (if boot.len() > 0 {
                    1int
                } else {
                    0
                }) + t.len() <= capacity {
                    Some(append_arg(boot, t))
                } else {
                    None
                }
            },
        }
    }
}

proof fn lemma_build_printable(parts: Seq<Seq<char>>, capacity: nat)
    ensures
        build_cmdline(parts, capacity) matches Some(b) ==> printable(b),
    decreases parts.len(),
{
    if parts.len() > 0 {
        lemma_build_printable(parts.drop_last(), capacity);
        if let Some(boot) = build_cmdline(parts.drop_last(), capacity) {
            let t = trimmed(parts.last());
            if printable(t) {
                let b = append_arg(boot, t);
                assert forall|i: int| 0 <= i < b.len() implies ' ' <= #[trigger] b[i] && b[i]
                    <= '~' by {
                    if boot.len() > 0 {
                        if i < boot.len() {
                        } else if i == boot.len() {
                        } else {
                            assert(b[i] == t[i - boot.len() - 1]);
                        }
                    }
                }
            }
        }
    }
}

/// The user's arguments followed by the platform's additions.
pub open spec fn cmdline_parts(args: Seq<char>, additions: Seq<String>) -> Seq<Seq<char>> {
    seq![args] + additions.map_values(|a: String| a@)
}

/// Builds the kernel command line: the user-supplied arguments, then each
/// addition (such as virtio-mmio device stanzas). Each piece is trimmed and
/// must be printable ASCII; exceeding the command line's capacity is an
/// error.
pub fn generate_cmdline(args: &String, additions: &Vec<String>) -> (r: Result<String, VmError>)
    ensures
        match build_cmdline(cmdline_parts(args@, additions@), CMDLINE_MAX_SIZE as nat) {
            Some(b) => r matches Ok(t) && t@ == b,
            None => r == Err::<String, VmError>(VmError::CmdLineInsertStr),
        },
{
    let ghost parts = cmdline_parts(args@, additions@);
    let mut c = match cmdline_new(CMDLINE_MAX_SIZE) {
        Ok(c) => c,
        Err(_) => {
            return Err(VmError::CmdLineInsertStr);
        },
    };
    assert(parts.take(0) == Seq::<Seq<char>>::empty());
    assert(build_cmdline(parts.take(0), CMDLINE_MAX_SIZE as nat) == Some(Seq::<char>::empty()));
    assert(printable(cmdline_boot_args(c)));
    assert(printable(cmdline_init_args(c)));
    if cmdline_insert_str(&mut c, args.as_str()).is_err() {
        assert(parts.take(1).drop_last() == parts.take(0));
        assert(parts.take(1).last() == args@);
        proof {
            lemma_build_prefix_none(parts, 1);
        }
        return Err(VmError::CmdLineInsertStr);
    }
    assert(parts.take(1).drop_last() == parts.take(0));
    assert(parts.take(1).last() == args@);
    let mut i: usize = 0;
    while i < additions.len()
        invariant
            i <= additions@.len(),
            parts == cmdline_parts(args@, additions@),
            parts.len() == additions@.len() + 1,
            build_cmdline(parts.take(i + 1), CMDLINE_MAX_SIZE as nat) == Some(
                cmdline_boot_args(c),
            ),
            cmdline_init_args(c).len() == 0,
            cmdline_capacity(c) == CMDLINE_MAX_SIZE,
        decreases additions@.len() - i,
    {
        assert(parts.take(i + 2).drop_last() == parts.take(i + 1));
        assert(parts.take(i + 2).last() == additions@[i as int]@);
        proof {
            lemma_build_printable(parts.take(i + 1), CMDLINE_MAX_SIZE as nat);
        }
        assert(printable(cmdline_init_args(c)));
        if cmdline_insert_str(&mut c, additions[i].as_str()).is_err() {
            proof {
                lemma_build_prefix_none(parts, i + 2);
            }
            return Err(VmError::CmdLineInsertStr);
        }
        i += 1;
    }
    assert(parts.take(i + 1) == parts);
    proof {
        lemma_build_printable(parts, CMDLINE_MAX_SIZE as nat);
    }
    assert(!cmdline_boot_args(c).contains('\0')) by {
        if cmdline_boot_args(c).contains('\0') {
            let k = choose|k: int|
                0 <= k < cmdline_boot_args(c).len() && cmdline_boot_args(c)[k] == '\0';
            assert(' ' <= cmdline_boot_args(c)[k]);
        }
    }
    match cmdline_as_string(&c) {
        Ok(t) => Ok(t),
        Err(_) => Err(VmError::CmdLineInsertStr),
    }
}

proof fn lemma_build_prefix_none(parts: Seq<Seq<char>>, n: int)
    requires
        0 < n <= parts.len(),
        build_cmdline(parts.take(n), CMDLINE_MAX_SIZE as nat) is None,
    ensures
        build_cmdline(parts, CMDLINE_MAX_SIZE as nat) is None,
    decreases parts.len() - n,
{
    if n < parts.len() {
        assert(parts.take(n + 1).drop_last() == parts.take(n));
        lemma_build_prefix_none(parts, n + 1);
    } else {
        assert(parts.take(n) == parts);
    }
}

} // verus!
