//! The system call filter: which calls the process may make once it is set up,
//! by their numbers on x86-64 Linux.
use crate::error::HardeningError;
use vstd::prelude::*;
use vstd::string::StringSliceAdditionalSpecFns;

verus! {

/// Numbers of system calls lie below this.
pub const MAX_SYSCALL: i64 = 512;

/// Memory: mmap, mprotect, munmap, brk, mremap, madvise, mlock, mlockall,
/// memfd_create.
pub open spec fn is_memory_call(nr: i64) -> bool {
    9 <= nr <= 12 || nr == 25 || nr == 28 || nr == 149 || nr == 151 || nr == 319
}

/// Files: read, write, close, stat, fstat, lstat, lseek, pread64, pwrite64,
/// readv, writev, fsync, fdatasync, getcwd, rename, mkdir, unlink, readlink,
/// getdents64, openat, mkdirat, unlinkat, renameat, readlinkat.
pub open spec fn is_file_call(nr: i64) -> bool {
    nr == 0 || nr == 1 || 3 <= nr <= 6 || nr == 8 || 17 <= nr <= 20 || nr == 74 || nr == 75 || nr
        == 79 || nr == 82 || nr == 83 || nr == 87 || nr == 89 || nr == 217 || nr == 257 || nr == 258
        || nr == 263 || nr == 264 || nr == 267
}

/// Processes and threads: sched_yield, getpid, clone, exit, prctl, arch_prctl,
/// gettid, futex, sched_getaffinity, exit_group, set_robust_list,
/// get_robust_list, clone3.
pub open spec fn is_thread_call(nr: i64) -> bool {
    nr == 24 || nr == 39 || nr == 56 || nr == 60 || nr == 157 || nr == 158 || nr == 186 || nr == 202
        || nr == 204 || nr == 231 || nr == 273 || nr == 274 || nr == 435
}

/// Signals: rt_sigaction, rt_sigprocmask, rt_sigreturn, kill, sigaltstack,
/// tgkill.
pub open spec fn is_signal_call(nr: i64) -> bool {
    13 <= nr <= 15 || nr == 62 || nr == 131 || nr == 234
}

/// Networking: poll, select, socket to listen, socketpair, setsockopt,
/// getsockopt, epoll_wait, epoll_ctl, pselect6, ppoll, epoll_pwait, accept4,
/// epoll_create1, recvmmsg, sendmmsg.
pub open spec fn is_network_call(nr: i64) -> bool {
    nr == 7 || nr == 23 || 41 <= nr <= 55 || nr == 232 || nr == 233 || nr == 270 || nr == 271 || nr
        == 281 || nr == 288 || nr == 291 || nr == 299 || nr == 307
}

/// Time: nanosleep, clock_gettime, clock_nanosleep, timerfd_create,
/// timerfd_settime, timerfd_gettime.
pub open spec fn is_time_call(nr: i64) -> bool {
    nr == 35 || nr == 228 || nr == 230 || nr == 283 || nr == 286 || nr == 287
}

/// Descriptors and the rest of the runtime: ioctl, dup, dup2, uname, fcntl,
/// getrlimit, setrlimit, eventfd2, dup3, pipe2, prlimit64, getrandom,
/// membarrier, rseq.
pub open spec fn is_runtime_call(nr: i64) -> bool {
    nr == 16 || nr == 32 || nr == 33 || nr == 63 || nr == 72 || nr == 97 || nr == 160 || nr == 290
        || nr == 292 || nr == 293 || nr == 302 || nr == 318 || nr == 324 || nr == 334
}

/// Whether the process may make a system call.
pub open spec fn is_allowed_call(nr: i64) -> bool {
    is_memory_call(nr) || is_file_call(nr) || is_thread_call(nr) || is_signal_call(nr)
        || is_network_call(nr) || is_time_call(nr) || is_runtime_call(nr)
}

/// Whether the process may make a system call.
pub fn is_allowed(nr: i64) -> (r: bool)
    ensures
        r == is_allowed_call(nr),
{
    match nr {
        9 | 10 | 11 | 12 | 25 | 28 | 149 | 151 | 319 => true,
        0 | 1 | 3 | 4 | 5 | 6 | 8 | 17 | 18 | 19 | 20 | 74 | 75 | 79 | 82 | 83 | 87 | 89 | 217 | 257 | 258 | 263 | 264 | 267 => true,
        24 | 39 | 56 | 60 | 157 | 158 | 186 | 202 | 204 | 231 | 273 | 274 | 435 => true,
        13 | 14 | 15 | 62 | 131 | 234 => true,
        7 | 23 | 41 | 42 | 43 | 44 | 45 | 46 | 47 | 48 | 49 | 50 | 51 | 52 | 53 | 54 | 55 | 232 | 233 | 270 | 271 | 281 | 288 | 291 | 299 | 307 => true,
        35 | 228 | 230 | 283 | 286 | 287 => true,
        16 | 32 | 33 | 63 | 72 | 97 | 160 | 290 | 292 | 293 | 302 | 318 | 324 | 334 => true,
        _ => false,
    }
}

/// The allowed calls below `to`, in ascending order.
pub open spec fn allowed_below(to: i64) -> Seq<i64>
    decreases to,
{
    if to <= 0 {
        seq![]
    } else {
        let nr = (to - 1) as i64;
        if is_allowed_call(nr) {
            allowed_below(nr).push(nr)
        } else {
            allowed_below(nr)
        }
    }
}

/// The calls that the process may make.
pub fn allowed_syscalls() -> (r: Vec<i64>)
    ensures
        r@ == allowed_below(MAX_SYSCALL),
{
    let mut allowed: Vec<i64> = Vec::new();
    let mut nr: i64 = 0;
    while nr < MAX_SYSCALL
        invariant
            0 <= nr <= MAX_SYSCALL,
            allowed@ == allowed_below(nr),
        decreases MAX_SYSCALL - nr,
    {
        if is_allowed(nr) {
            allowed.push(nr);
        }
        nr = nr + 1;
    }
    allowed
}

/// The list holds the allowed calls and no others.
pub proof fn list_is_exact(to: i64, nr: i64)
    requires
        0 <= to,
    ensures
        allowed_below(to).contains(nr) <==> 0 <= nr < to && is_allowed_call(nr),
    decreases to,
{
    if to > 0 {
        let k = (to - 1) as i64;
        list_is_exact(k, nr);
        let s = allowed_below(k);
        if is_allowed_call(k) {
            let t = s.push(k);
            assert(t[t.len() - 1] == k);
            if s.contains(nr) {
                let j = choose|j: int| 0 <= j < s.len() && s[j] == nr;
                assert(t[j] == nr);
            }
            if t.contains(nr) && nr != k {
                let j = choose|j: int| 0 <= j < t.len() && t[j] == nr;
                assert(s[j] == nr);
            }
        }
    }
}

/// Every allowed call has a number below the end of the list.
pub proof fn list_is_complete(nr: i64)
    requires
        is_allowed_call(nr),
    ensures
        allowed_below(MAX_SYSCALL).contains(nr),
{
    list_is_exact(MAX_SYSCALL, nr);
}

/// What a filter does with a call.
#[derive(Debug, Clone, Copy, PartialEq, Eq, Structural)]
pub enum CallAction {
    /// The call goes through.
    Allow,
    /// The process is killed at once.
    KillProcess,
}

impl CallAction {
    /// What a filter program returns to the kernel for the action.
    pub open spec fn code(self) -> u32 {
        match self {
            CallAction::Allow => 0x7fff_0000,
            CallAction::KillProcess => 0x8000_0000,
        }
    }
}

/// An instruction of a filter program: operation, two jump offsets and an
/// operand.
pub type Instruction = (u16, u8, u8, u32);

/// The architecture that the filter is for.
pub const ARCH: &'static str = "x86_64";

/// The kernel's number for [`ARCH`].
pub const AUDIT_ARCH: u32 = 0xc000_003e;

/// What the kernel gets from a filter program for the call `nr` on the
/// architecture `arch`, where the program goes on at `pc` with `acc` loaded.
/// The operations are to load the number or the architecture of the call, to
/// jump on equality, to jump, and to return.
pub open spec fn verdict(
    program: Seq<Instruction>,
    arch: u32,
    nr: u32,
    pc: int,
    acc: u32,
) -> Option<u32>
    decreases if pc < program.len() { program.len() - pc } else { 0 },
{
    if pc < 0 || pc >= program.len() {
        None
    } else {
        let (code, jt, jf, k) = program[pc];
        if code == 0x20 && k == 0 {
            verdict(program, arch, nr, pc + 1, nr)
        } else if code == 0x20 && k == 4 {
            verdict(program, arch, nr, pc + 1, arch)
        } else if code == 0x15 {
            verdict(program, arch, nr, pc + 1 + (if acc == k { jt } else { jf }), acc)
        } else if code == 0x05 {
            verdict(program, arch, nr, pc + 1 + k, acc)
        } else if code == 0x06 {
            Some(k)
        } else {
            None
        }
    }
}

/// Whether a program passes the calls in `allowed` on, answers every other by
/// `refuse`, and kills the process on another architecture than [`ARCH`].
pub open spec fn enforces(
    program: Seq<Instruction>,
    allowed: Seq<i64>,
    refuse: CallAction,
    pass: CallAction,
) -> bool {
    forall|arch: u32, nr: u32|
        #![trigger verdict(program, arch, nr, 0, 0)]
        verdict(program, arch, nr, 0, 0) == Some(
            if arch != AUDIT_ARCH {
                CallAction::KillProcess.code()
            } else if allowed.contains(nr as i64) {
                pass.code()
            } else {
                refuse.code()
            },
        )
}

/// The filter program for some calls on an architecture, with what it does
/// with them and with every other call. There is a text where there is no
/// program.
pub uninterp spec fn filter_program(
    allowed: Seq<i64>,
    refuse: CallAction,
    pass: CallAction,
    arch: Seq<char>,
) -> Result<Seq<(u16, u8, u8, u32)>, Seq<char>>;

/// `seccompiler::SeccompFilter::new` with a rule for each call that matches
/// whatever its arguments, then the conversion to a program. The program of a
/// known architecture answers each call as the actions say. There is one for
/// two different actions as long as its instructions, five for each call and
/// five more, are fewer than 4096.
#[verifier::external_body]
fn compile_filter(allowed: &Vec<i64>, refuse: CallAction, pass: CallAction, arch: &str) -> (r:
    Result<Vec<(u16, u8, u8, u32)>, String>)
    requires
        forall|i: int| 0 <= i < allowed@.len() ==> 0 <= #[trigger] allowed@[i] <= u32::MAX,
    ensures
        match r {
            Ok(p) => filter_program(allowed@, refuse, pass, arch@) == Ok::<
                Seq<(u16, u8, u8, u32)>,
                Seq<char>,
            >(p@),
            Err(t) => filter_program(allowed@, refuse, pass, arch@) == Err::<
                Seq<(u16, u8, u8, u32)>,
                Seq<char>,
            >(t@),
        },
        r is Ok && arch@ == ARCH@ ==> enforces(r->Ok_0@, allowed@, refuse, pass),
        arch@ == ARCH@ && refuse != pass && 5 * allowed@.len() + 5 < 4096 ==> r is Ok,
{
    let action = |a| match a {
        CallAction::Allow => seccompiler::SeccompAction::Allow,
        CallAction::KillProcess => seccompiler::SeccompAction::KillProcess,
    };
    let rules = allowed.iter().map(|nr| (*nr, Vec::new())).collect();
    let arch = seccompiler::TargetArch::try_from(arch).map_err(|e| e.to_string())?;
    let filter = seccompiler::SeccompFilter::new(rules, action(refuse), action(pass), arch);
    let filter = filter.map_err(|e| e.to_string())?;
    let program = seccompiler::BpfProgram::try_from(filter).map_err(|e| e.to_string())?;
    Ok(program.into_iter().map(|i| (i.code, i.jt, i.jf, i.k)).collect())
}

/// There are no more allowed calls below a number than numbers.
proof fn lemma_allowed_count(to: i64)
    requires
        0 <= to,
    ensures
        allowed_below(to).len() <= to,
    decreases to,
{
    if to > 0 {
        lemma_allowed_count((to - 1) as i64);
    }
}

/// Builds the filter: the allowed calls pass, any other kills the process at
/// once.
pub fn build_filter() -> (r: Result<Vec<(u16, u8, u8, u32)>, HardeningError>)
    ensures
        r is Ok,
        filter_program(
            allowed_below(MAX_SYSCALL),
            CallAction::KillProcess,
            CallAction::Allow,
            ARCH@,
        ) == Ok::<Seq<(u16, u8, u8, u32)>, Seq<char>>(r->Ok_0@),
        forall|nr: u32|
            #![trigger verdict(r->Ok_0@, AUDIT_ARCH, nr, 0, 0)]
            verdict(r->Ok_0@, AUDIT_ARCH, nr, 0, 0) == Some(
                if is_allowed_call(nr as i64) {
                    CallAction::Allow.code()
                } else {
                    CallAction::KillProcess.code()
                },
            ),
        forall|arch: u32, nr: u32|
            #![trigger verdict(r->Ok_0@, arch, nr, 0, 0)]
            arch != AUDIT_ARCH ==> verdict(r->Ok_0@, arch, nr, 0, 0) == Some(
                CallAction::KillProcess.code(),
            ),
{
    let allowed = allowed_syscalls();
    proof {
        lemma_allowed_count(MAX_SYSCALL);
        assert forall|i: int| 0 <= i < allowed@.len() implies 0 <= #[trigger] allowed@[i]
            <= u32::MAX by {
            list_is_exact(MAX_SYSCALL, allowed@[i]);
        }
        assert forall|nr: u32|
            #![trigger allowed@.contains(nr as i64)]
            allowed@.contains(nr as i64) == is_allowed_call(nr as i64) by {
            list_is_exact(MAX_SYSCALL, nr as i64);
        }
    }
    match compile_filter(&allowed, CallAction::KillProcess, CallAction::Allow, ARCH) {
        Ok(p) => Ok(p),
        Err(t) => Err(HardeningError::SeccompBuild(t)),
    }
}

/// The decimal digits of `n` as bytes.
pub open spec fn digit_bytes(n: nat) -> Seq<u8>
    decreases n,
{
    if n < 10 {
        seq![(n + 48) as u8]
    } else {
        digit_bytes(n / 10).push((n % 10 + 48) as u8)
    }
}

/// What is reported of a trapped call. A number of zero or the greatest says
/// that it is not known.
pub open spec fn trap_message(nr: u64) -> Seq<u8> {
    "[seccomp] blocked syscall ".spec_bytes() + (if nr == 0 || nr == u64::MAX {
        seq![63u8]
    } else {
        digit_bytes(nr as nat)
    }) + seq![10u8]
}

/// Ten to the power of `k`.
pub open spec fn ten_to(k: nat) -> nat
    decreases k,
{
    if k == 0 {
        1
    } else {
        10 * ten_to((k - 1) as nat)
    }
}

/// A number below ten to the power of `k` has at most `k` digits.
proof fn lemma_digit_count(n: nat, k: nat)
    requires
        k > 0,
        n < ten_to(k),
    ensures
        0 < digit_bytes(n).len() <= k,
    decreases k,
{
    if n >= 10 {
        assert(k > 1) by {
            if k == 1 {
                assert(ten_to(1) == 10 * ten_to(0));
            }
        }
        lemma_digit_count(n / 10, (k - 1) as nat);
    }
}

/// Writes what is reported of a trapped call to the front of `buf`, and says
/// how many bytes it is. Nothing is allocated, so a signal handler may call
/// it.
pub fn write_trap_message(nr: u64, buf: &mut [u8; 64]) -> (r: usize)
    ensures
        r <= 64,
        final(buf)@.take(r as int) == trap_message(nr),
{
    let prefix = "[seccomp] blocked syscall ".as_bytes();
    proof {
        reveal_strlit("[seccomp] blocked syscall ");
        vstd::utf8::is_ascii_chars_encode_utf8("[seccomp] blocked syscall "@);
        assert(ten_to(20) == 100_000_000_000_000_000_000) by {
            reveal_with_fuel(ten_to, 21);
        }
        lemma_digit_count(nr as nat, 20);
    }
    assert(prefix@.len() == 26);
    let mut pos: usize = 0;
    while pos < 26
        invariant
            pos <= 26,
            prefix@.len() == 26,
            forall|j: int| 0 <= j < pos ==> buf@[j] == prefix@[j],
        decreases 26 - pos,
    {
        buf[pos] = prefix[pos];
        pos = pos + 1;
    }
    if nr == 0 || nr == u64::MAX {
        buf[26] = 63;
        buf[27] = 10;
        assert(buf@.take(28) =~= trap_message(nr));
        return 28;
    }
    let ghost digits = digit_bytes(nr as nat);
    let mut count: usize = 1;
    let mut rest: u64 = nr / 10;
    while rest > 0
        invariant
            1 <= count <= digits.len() <= 20,
            count + (if rest == 0 {
                0
            } else {
                digit_bytes(rest as nat).len() as int
            }) == digits.len(),
        decreases rest,
    {
        proof {
            assert(ten_to(20) == 100_000_000_000_000_000_000) by {
                reveal_with_fuel(ten_to, 21);
            }
            lemma_digit_count(rest as nat, 20);
        }
        count = count + 1;
        rest = rest / 10;
    }
    let mut n: u64 = nr;
    let mut left: usize = count;
    while left > 0
        invariant
            count == digits.len() <= 20,
            left <= count,
            left > 0 ==> digit_bytes(n as nat) == digits.take(left as int),
            prefix@.len() == 26,
            forall|j: int| 0 <= j < 26 ==> buf@[j] == prefix@[j],
            forall|j: int| left <= j < count ==> buf@[26 + j] == digits[j],
        decreases left,
    {
        buf[26 + left - 1] = (n % 10) as u8 + 48;
        proof {
            let d = digits.take(left as int);
            assert(d.last() == digits[left - 1]);
            assert(d.drop_last() =~= digits.take(left - 1));
            if n < 10 {
                assert(d.len() == 1);
            } else {
                assert(digit_bytes((n / 10) as nat) =~= d.drop_last());
            }
        }
        n = n / 10;
        left = left - 1;
    }
    buf[26 + count] = 10;
    assert(buf@.take(27 + count) =~= trap_message(nr));
    27 + count
}

} // verus!
