//! What the hardening refuses and what it lets pass, stated of what was seen.
use crate::error::HardeningError;
use crate::hardening::android::hardening_found;
use crate::hardening::entropy::plausible;
use crate::hardening::integrity::{injected, integrity, names_tracer, traced};
use crate::hardening::memory::{next_step, MemoryStep, Platform};
use crate::hardening::root::{
    found_from, found_text, is_test_build, root_file, root_found, test_build, RootView, ROOT_FILES,
};
use crate::hardening::seccomp::{digit_bytes, is_allowed_call, trap_message};
use crate::text;
use crate::text::{decimal, has_part, is_space, lines_from, lower, trim_is_exact, trim_spec};
use vstd::prelude::*;
use vstd::string::StringSliceAdditionalSpecFns;

verus! {

/// A file that tells of root is reported by its path, the first of them
/// wherever it stands; without one the phone is not called rooted.
pub proof fn root_files_are_reported(exists_at: Seq<bool>, props: Option<Seq<char>>, i: int)
    requires
        0 <= i < exists_at.len(),
        exists_at[i],
        forall|j: int| 0 <= j < i ==> !exists_at[j],
    ensures
        root_found(exists_at, props) matches RootView::Rooted(t) && root_file(i).is_suffix_of(t),
{
    lemma_found_from(exists_at, 0, i);
    let t = found_text(i);
    let f = root_file(i);
    assert(t.subrange(t.len() - f.len(), t.len() as int) =~= f);
}

proof fn lemma_found_from(exists_at: Seq<bool>, from: int, i: int)
    requires
        0 <= from <= i < exists_at.len(),
        exists_at[i],
        forall|j: int| from <= j < i ==> !exists_at[j],
    ensures
        found_from(exists_at, from) == Some(i),
    decreases i - from,
{
    if from < i {
        lemma_found_from(exists_at, from + 1, i);
    }
}

/// A phone without such a file is suspected exactly where a line of its build
/// properties tells of test keys.
pub proof fn clean_phones_are_not_suspected(exists_at: Seq<bool>, props: Option<Seq<char>>)
    requires
        forall|j: int| 0 <= j < exists_at.len() ==> !exists_at[j],
    ensures
        !(root_found(exists_at, props) is Rooted),
        root_found(exists_at, props) is PossiblyRooted <==> (props matches Some(p) && test_build(
            p,
        )),
{
    lemma_none_found(exists_at, 0);
}

proof fn lemma_none_found(exists_at: Seq<bool>, from: int)
    requires
        0 <= from,
        forall|j: int| 0 <= j < exists_at.len() ==> !exists_at[j],
    ensures
        found_from(exists_at, from) is None,
    decreases exists_at.len() - from,
{
    if from < exists_at.len() {
        lemma_none_found(exists_at, from + 1);
    }
}

/// A build is one with test keys wherever the line stands that says so.
pub proof fn test_keys_are_found(props: Seq<char>, i: int, tags: Seq<char>)
    requires
        0 <= i < lines_from(props, 0).len(),
        lines_from(props, 0)[i] == "ro.build.tags="@ + tags,
        has_part(tags, "test-keys"@),
    ensures
        test_build(props),
{
    let p = "ro.build.tags="@;
    let line = p + tags;
    let k = choose|k: int| text::part_at(tags, "test-keys"@, k);
    assert(line.subrange(p.len() + k, p.len() + k + "test-keys"@.len()) =~= tags.subrange(
        k,
        k + "test-keys"@.len(),
    ));
    assert(text::part_at(line, "test-keys"@, p.len() + k));
    assert(line.subrange(0, p.len() as int) =~= p);
    assert(is_test_build(lines_from(props, 0)[i]));
}

/// The files that are looked for are all different.
pub proof fn root_files_differ(i: int, j: int)
    requires
        0 <= i < j < ROOT_FILES,
    ensures
        root_file(i) != root_file(j),
{
    reveal_strlit("/system/bin/su");
    reveal_strlit("/system/xbin/su");
    reveal_strlit("/sbin/su");
    reveal_strlit("/system/su");
    reveal_strlit("/data/local/su");
    reveal_strlit("/data/local/bin/su");
    reveal_strlit("/sbin/.magisk");
    reveal_strlit("/data/adb/magisk");
    assert("/system/bin/su"@.len() == 14 && "/system/bin/su"@[1] == 's');
    assert("/system/xbin/su"@.len() == 15);
    assert("/sbin/su"@.len() == 8);
    assert("/system/su"@.len() == 10);
    assert("/data/local/su"@.len() == 14 && "/data/local/su"@[1] == 'd');
    assert("/data/local/bin/su"@.len() == 18);
    assert("/sbin/.magisk"@.len() == 13);
    assert("/data/adb/magisk"@.len() == 16);
}

/// A tracer is a process with a number: a status that names one, in whichever
/// line, ends the start.
pub proof fn tracers_are_found(status: Seq<char>, i: int, pid: nat, maps: Option<Seq<char>>)
    requires
        0 <= i < lines_from(status, 0).len(),
        lines_from(status, 0)[i] == "TracerPid:\t"@ + decimal(pid),
        pid > 0,
    ensures
        traced(status),
        integrity(Some(status), maps) == Err::<(), HardeningError>(
            HardeningError::DebuggerDetected,
        ),
{
    let p = "TracerPid:\t"@;
    let d = decimal(pid);
    reveal_strlit("0");
    assert((p + d).subrange(0, p.len() as int) =~= p);
    assert((p + d).skip(p.len() as int) =~= d);
    lemma_number_is_trimmed(pid);
    assert("0"@[0] == '0');
    assert(names_tracer(lines_from(status, 0)[i]));
}

proof fn lemma_number_is_trimmed(n: nat)
    ensures
        trim_spec(decimal(n)) == decimal(n),
        n > 0 ==> decimal(n)[0] != '0',
{
    let d = decimal(n);
    text::decimal_is_read_back(n);
    assert(text::is_digit(d[0]));
    assert(text::is_digit(d[d.len() - 1]));
    assert(!is_space(d[0]) && !is_space(d.last()));
    trim_is_exact(d);
}

/// A status without a tracer, whose line names process 0, shows no debugger.
pub proof fn untraced_processes_pass(status: Seq<char>)
    requires
        forall|i: int|
            0 <= i < lines_from(status, 0).len() ==> (#[trigger] lines_from(status, 0)[i]
                == "TracerPid:\t"@ + "0"@ || !"TracerPid:\t"@.is_prefix_of(
                lines_from(status, 0)[i],
            )),
    ensures
        !traced(status),
{
    let p = "TracerPid:\t"@;
    reveal_strlit("0");
    assert((p + "0"@).skip(p.len() as int) =~= "0"@);
    trim_is_exact("0"@);
    if traced(status) {
        let i = choose|i: int|
            0 <= i < lines_from(status, 0).len() && names_tracer(
                #[trigger] lines_from(status, 0)[i],
            );
        assert(lines_from(status, 0)[i] == p + "0"@);
    }
}

/// A memory map that names one of the frameworks, whatever the case, ends the
/// start; one that names none passes.
pub proof fn frameworks_are_found(status: Seq<char>, maps: Seq<char>)
    requires
        !traced(status),
    ensures
        has_part(lower(maps), "frida"@) || has_part(lower(maps), "xposed"@) || has_part(
            lower(maps),
            "substrate"@,
        ) || has_part(lower(maps), "gadget"@) <==> integrity(Some(status), Some(maps)) == Err::<
            (),
            HardeningError,
        >(HardeningError::InjectionDetected),
        !has_part(lower(maps), "frida"@) && !has_part(lower(maps), "xposed"@) && !has_part(
            lower(maps),
            "substrate"@,
        ) && !has_part(lower(maps), "gadget"@) ==> integrity(Some(status), Some(maps)) is Ok,
{
}

/// Nothing is unlocked on a phone in doubt: the hardening succeeds exactly where
/// the sample of randomness is not all zeros, the memory is hardened, and both
/// the status and the memory map could be read and are clean. Root alone is no
/// reason to refuse.
pub proof fn doubtful_phones_are_refused(
    sample: Option<Seq<u8>>,
    memory: Result<(), HardeningError>,
    status: Option<Seq<char>>,
    maps: Option<Seq<char>>,
    exists_at: Seq<bool>,
    props: Option<Seq<char>>,
)
    ensures
        hardening_found(sample, memory, status, maps, exists_at, props) is Ok <==> {
            &&& sample matches Some(s)
            &&& exists|i: int| 0 <= i < s.len() && s[i] != 0
            &&& memory is Ok
            &&& status matches Some(t)
            &&& !traced(t)
            &&& maps matches Some(m)
            &&& !injected(m)
        },
        hardening_found(sample, memory, status, maps, exists_at, props) matches Ok(found) ==> found
            == root_found(exists_at, props),
{
    if let Some(s) = sample {
        assert(plausible(s) == exists|i: int| 0 <= i < s.len() && s[i] != 0);
    }
}

/// A failure of one of the first two calls ends the hardening with its code; a
/// failure of a later one ends nothing. Pages are locked on a desktop.
pub proof fn failures_that_matter(platform: Platform, code: i32)
    ensures
        next_step(platform, MemoryStep::ClearDumpable, Some(code)) == Err::<
            MemoryStep,
            HardeningError,
        >(HardeningError::PrctlFailed(code)),
        next_step(platform, MemoryStep::ZeroCoreLimit, Some(code)) == Err::<
            MemoryStep,
            HardeningError,
        >(HardeningError::SetrlimitFailed(code)),
        next_step(platform, MemoryStep::LockPages, Some(code)) is Ok,
        next_step(platform, MemoryStep::NoNewPrivileges, Some(code)) is Ok,
        next_step(Platform::Desktop, MemoryStep::ZeroCoreLimit, None) == Ok::<
            MemoryStep,
            HardeningError,
        >(MemoryStep::LockPages),
        next_step(Platform::Android, MemoryStep::ZeroCoreLimit, None) == Ok::<
            MemoryStep,
            HardeningError,
        >(MemoryStep::NoNewPrivileges),
{
}

/// Calls that start programs, trace or read other processes, change the identity
/// of the process, mount file systems, restart the machine or load code into the
/// kernel: fork, vfork, execve, ptrace, execveat; setuid, setgid, setreuid,
/// setregid, setresuid, setresgid, chroot; mount, umount2, reboot; init_module,
/// delete_module, process_vm_readv, process_vm_writev, finit_module, bpf.
pub open spec fn is_dangerous_call(nr: i64) -> bool {
    57 <= nr <= 59 || nr == 101 || nr == 322 || nr == 105 || nr == 106 || nr == 113 || nr == 114
        || nr == 117 || nr == 119 || nr == 161 || nr == 165 || nr == 166 || nr == 169 || nr == 175
        || nr == 176 || nr == 310 || nr == 311 || nr == 313 || nr == 321
}

/// No dangerous call passes the filter.
pub proof fn dangerous_calls_are_refused(nr: i64)
    requires
        is_dangerous_call(nr),
    ensures
        !is_allowed_call(nr),
{
}

/// What is reported of a trapped call is a line that ends with the number in
/// decimal, or with a question mark where the number is not known.
pub proof fn trap_messages_tell_the_number(nr: u64)
    ensures
        trap_message(nr).last() == 10,
        "[seccomp] blocked syscall ".spec_bytes().is_prefix_of(trap_message(nr)),
        nr != 0 && nr != u64::MAX ==> {
            let d = decimal(nr as nat);
            let m = trap_message(nr);
            &&& m.len() == "[seccomp] blocked syscall ".spec_bytes().len() + d.len() + 1
            &&& forall|i: int|
                0 <= i < d.len() ==> m["[seccomp] blocked syscall ".spec_bytes().len() + i]
                    == #[trigger] d[i] as int
        },
{
    let p = "[seccomp] blocked syscall ".spec_bytes();
    let m = trap_message(nr);
    assert(m.subrange(0, p.len() as int) =~= p);
    lemma_digit_bytes(nr as nat);
}

proof fn lemma_digit_bytes(n: nat)
    ensures
        digit_bytes(n).len() == decimal(n).len(),
        forall|i: int|
            0 <= i < decimal(n).len() ==> digit_bytes(n)[i] == #[trigger] decimal(n)[i] as int,
    decreases n,
{
    if n >= 10 {
        lemma_digit_bytes(n / 10);
        assert forall|i: int| 0 <= i < decimal(n).len() implies digit_bytes(n)[i]
            == #[trigger] decimal(n)[i] as int by {
            if i < decimal(n / 10).len() {
                assert(decimal(n)[i] == decimal(n / 10)[i]);
                assert(digit_bytes(n)[i] == digit_bytes(n / 10)[i]);
            }
        }
    }
}

} // verus!
