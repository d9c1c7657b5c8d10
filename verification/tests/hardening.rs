use op4_core::error::HardeningError;
use op4_core::hardening::android::apply_all_android_hardening;
use op4_core::hardening::entropy::{judge_sample, verify_entropy_source};
use op4_core::hardening::integrity::{
    check_no_debugger, check_no_injection, verify_runtime_integrity,
};
use op4_core::hardening::memory::{apply_memory_hardening, MemoryStep, Platform};
use op4_core::hardening::root::{check_root_status, root_file_path, RootStatus, ROOT_FILES};
use op4_core::hardening::seccomp::{
    allowed_syscalls, build_filter, is_allowed, write_trap_message, AUDIT_ARCH, MAX_SYSCALL,
};

const STATUS: &str = "Name:\top4\nPid:\t42\nTracerPid:\t0\nUid:\t0\n";
const MAPS: &str = "00400000-00452000 r-xp 00000000 08:02 1 /usr/bin/op4\n[heap]\n";

// The source of randomness

#[test]
fn entropy_source_works_on_desktop() {
    assert!(verify_entropy_source().is_ok());
}

#[test]
fn a_source_that_fails_or_gives_zeros_is_refused() {
    assert!(matches!(judge_sample(None), Err(HardeningError::EntropyUnavailable)));
    assert!(matches!(judge_sample(Some([0u8; 32])), Err(HardeningError::EntropyUnavailable)));
    let mut sample = [0u8; 32];
    sample[31] = 1;
    assert!(judge_sample(Some(sample)).is_ok());
}

// Debuggers and injected code

#[test]
fn no_debugger_on_normal_test_run() {
    assert!(check_no_debugger(Some(STATUS)).is_ok());
}

#[test]
fn no_injection_framework_on_desktop() {
    assert!(check_no_injection(Some(MAPS)).is_ok());
}

#[test]
fn verify_runtime_integrity_passes() {
    assert!(verify_runtime_integrity(Some(STATUS), Some(MAPS)).is_ok());
}

#[test]
fn a_tracer_is_found() {
    let status = "Name:\top4\nTracerPid:\t 1234 \n";
    assert!(matches!(check_no_debugger(Some(status)), Err(HardeningError::DebuggerDetected)));
    assert!(matches!(
        verify_runtime_integrity(Some(status), Some(MAPS)),
        Err(HardeningError::DebuggerDetected)
    ));
    assert!(matches!(check_no_debugger(None), Err(HardeningError::IntegrityCheckFailed)));
    assert!(check_no_debugger(Some("no such line")).is_ok());
}

#[test]
fn injected_libraries_are_found() {
    for name in ["frida-agent.so", "XposedBridge.jar", "libsubstrate.so", "Gadget.so"] {
        let maps = format!("{MAPS}/data/local/tmp/{name}\n");
        assert!(matches!(
            check_no_injection(Some(&maps)),
            Err(HardeningError::InjectionDetected)
        ));
    }
    assert!(matches!(check_no_injection(None), Err(HardeningError::IntegrityCheckFailed)));
}

// Memory

#[test]
fn memory_is_hardened_step_by_step() {
    let step = |p, s| apply_memory_hardening(p, s, None).ok().unwrap();
    let mut on_desktop = Vec::new();
    let mut s = MemoryStep::ClearDumpable;
    while s != MemoryStep::Finished {
        on_desktop.push(s);
        s = step(Platform::Desktop, s);
    }
    assert_eq!(
        on_desktop,
        [MemoryStep::ClearDumpable, MemoryStep::ZeroCoreLimit, MemoryStep::LockPages]
    );
    let mut on_phone = Vec::new();
    let mut s = MemoryStep::ClearDumpable;
    while s != MemoryStep::Finished {
        on_phone.push(s);
        s = step(Platform::Android, s);
    }
    assert_eq!(
        on_phone,
        [MemoryStep::ClearDumpable, MemoryStep::ZeroCoreLimit, MemoryStep::NoNewPrivileges]
    );
}

#[test]
fn failed_steps_are_reported() {
    assert!(matches!(
        apply_memory_hardening(Platform::Desktop, MemoryStep::ClearDumpable, Some(22)),
        Err(HardeningError::PrctlFailed(22))
    ));
    assert!(matches!(
        apply_memory_hardening(Platform::Desktop, MemoryStep::ZeroCoreLimit, Some(1)),
        Err(HardeningError::SetrlimitFailed(1))
    ));
    assert!(matches!(
        apply_memory_hardening(Platform::Desktop, MemoryStep::LockPages, Some(12)),
        Ok(MemoryStep::Finished)
    ));
}

// Root access

#[test]
fn root_files_are_reported_in_order() {
    assert_eq!(ROOT_FILES, 8);
    let mut found = vec![false; ROOT_FILES];
    assert_eq!(check_root_status(&found, None), RootStatus::NotRooted);
    found[7] = true;
    assert_eq!(
        check_root_status(&found, None),
        RootStatus::Rooted("Magisk found at /data/adb/magisk".into())
    );
    found[2] = true;
    assert_eq!(root_file_path(2), "/sbin/su");
    assert_eq!(
        check_root_status(&found, None),
        RootStatus::Rooted("su binary found at /sbin/su".into())
    );
}

#[test]
fn test_keys_make_root_possible() {
    let found = vec![false; ROOT_FILES];
    let props = "ro.build.id=X\nro.build.tags=test-keys\n";
    assert_eq!(
        check_root_status(&found, Some(props)),
        RootStatus::PossiblyRooted("build signed with test-keys".into())
    );
    let props = "ro.build.tags=release-keys\n#ro.build.tags=test-keys\n";
    assert_eq!(check_root_status(&found, Some(props)), RootStatus::NotRooted);
}

#[test]
fn phone_checks_stop_at_the_first_failure() {
    let found = vec![false; ROOT_FILES];
    let all = apply_all_android_hardening(
        Some([1u8; 32]),
        Ok(()),
        Some(STATUS),
        Some(MAPS),
        &found,
        None,
    );
    assert!(matches!(all, Ok(RootStatus::NotRooted)));
    let no_entropy = apply_all_android_hardening(
        None,
        Err(HardeningError::PrctlFailed(1)),
        None,
        None,
        &found,
        None,
    );
    assert!(matches!(no_entropy, Err(HardeningError::EntropyUnavailable)));
    let no_prctl = apply_all_android_hardening(
        Some([1u8; 32]),
        Err(HardeningError::PrctlFailed(1)),
        None,
        None,
        &found,
        None,
    );
    assert!(matches!(no_prctl, Err(HardeningError::PrctlFailed(1))));
    let hidden = apply_all_android_hardening(Some([1u8; 32]), Ok(()), None, None, &found, None);
    assert!(matches!(hidden, Err(HardeningError::IntegrityCheckFailed)));
}

// System calls

#[test]
fn allowed_calls_have_their_numbers() {
    let mut expected: Vec<i64> = vec![
        libc::SYS_accept, libc::SYS_accept4, libc::SYS_arch_prctl, libc::SYS_bind,
        libc::SYS_brk, libc::SYS_clock_gettime, libc::SYS_clock_nanosleep, libc::SYS_clone,
        libc::SYS_clone3, libc::SYS_close, libc::SYS_connect, libc::SYS_dup, libc::SYS_dup2,
        libc::SYS_dup3, libc::SYS_epoll_create1, libc::SYS_epoll_ctl, libc::SYS_epoll_pwait,
        libc::SYS_epoll_wait, libc::SYS_eventfd2, libc::SYS_exit, libc::SYS_exit_group,
        libc::SYS_fcntl, libc::SYS_fdatasync, libc::SYS_fstat, libc::SYS_fsync,
        libc::SYS_futex, libc::SYS_get_robust_list, libc::SYS_getcwd, libc::SYS_getdents64,
        libc::SYS_getpeername, libc::SYS_getpid, libc::SYS_getrandom, libc::SYS_getrlimit,
        libc::SYS_getsockname, libc::SYS_getsockopt, libc::SYS_gettid, libc::SYS_ioctl,
        libc::SYS_kill, libc::SYS_listen, libc::SYS_lseek, libc::SYS_lstat, libc::SYS_madvise,
        libc::SYS_membarrier, libc::SYS_memfd_create, libc::SYS_mkdir, libc::SYS_mkdirat,
        libc::SYS_mlock, libc::SYS_mlockall, libc::SYS_mmap, libc::SYS_mprotect,
        libc::SYS_mremap, libc::SYS_munmap, libc::SYS_nanosleep, libc::SYS_openat,
        libc::SYS_pipe2, libc::SYS_poll, libc::SYS_ppoll, libc::SYS_prctl, libc::SYS_pread64,
        libc::SYS_prlimit64, libc::SYS_pselect6, libc::SYS_pwrite64, libc::SYS_read,
        libc::SYS_readlink, libc::SYS_readlinkat, libc::SYS_readv, libc::SYS_recvfrom,
        libc::SYS_recvmmsg, libc::SYS_recvmsg, libc::SYS_rename, libc::SYS_renameat,
        libc::SYS_rseq, libc::SYS_rt_sigaction, libc::SYS_rt_sigprocmask,
        libc::SYS_rt_sigreturn, libc::SYS_sched_getaffinity, libc::SYS_sched_yield,
        libc::SYS_select, libc::SYS_sendmmsg, libc::SYS_sendmsg, libc::SYS_sendto,
        libc::SYS_set_robust_list, libc::SYS_setrlimit, libc::SYS_setsockopt,
        libc::SYS_shutdown, libc::SYS_sigaltstack, libc::SYS_socket, libc::SYS_socketpair,
        libc::SYS_stat, libc::SYS_tgkill, libc::SYS_timerfd_create, libc::SYS_timerfd_gettime,
        libc::SYS_timerfd_settime, libc::SYS_uname, libc::SYS_unlink, libc::SYS_unlinkat,
        libc::SYS_write, libc::SYS_writev,
    ];
    expected.sort();
    assert_eq!(allowed_syscalls(), expected);
    for nr in 0..MAX_SYSCALL {
        assert_eq!(is_allowed(nr), expected.contains(&nr));
    }
    assert!(!is_allowed(libc::SYS_execve));
    assert!(!is_allowed(libc::SYS_ptrace));
    assert!(!is_allowed(-1));
}

#[test]
fn the_filter_is_what_the_compiler_makes_of_the_list() {
    let rules = allowed_syscalls().into_iter().map(|nr| (nr, vec![])).collect();
    let filter = seccompiler::SeccompFilter::new(
        rules,
        seccompiler::SeccompAction::KillProcess,
        seccompiler::SeccompAction::Allow,
        seccompiler::TargetArch::x86_64,
    )
    .unwrap();
    let program: seccompiler::BpfProgram = filter.try_into().unwrap();
    let expected: Vec<(u16, u8, u8, u32)> =
        program.into_iter().map(|i| (i.code, i.jt, i.jf, i.k)).collect();
    let built = build_filter().ok().unwrap();
    assert_eq!(built, expected);
    assert!(built.len() > allowed_syscalls().len());
}

/// What a filter program answers to a call.
fn answer(program: &[(u16, u8, u8, u32)], arch: u32, nr: u32) -> u32 {
    let (mut pc, mut acc) = (0usize, 0u32);
    loop {
        let (code, jt, jf, k) = program[pc];
        pc += 1;
        match code {
            0x20 => acc = if k == 0 { nr } else { arch },
            0x15 => pc += usize::from(if acc == k { jt } else { jf }),
            0x05 => pc += k as usize,
            0x06 => return k,
            _ => panic!("unknown instruction"),
        }
    }
}

#[test]
fn the_filter_passes_the_list_and_kills_the_rest() {
    let program = build_filter().ok().unwrap();
    let (pass, kill) = (0x7fff_0000, 0x8000_0000);
    for nr in (0..MAX_SYSCALL).chain([1 << 20, u32::MAX as i64]) {
        let expected = if is_allowed(nr) { pass } else { kill };
        assert_eq!(answer(&program, AUDIT_ARCH, nr as u32), expected);
        assert_eq!(answer(&program, 0x4000_0003, nr as u32), kill);
    }
    for nr in [libc::SYS_execve, libc::SYS_execveat, libc::SYS_ptrace, libc::SYS_fork] {
        assert_eq!(answer(&program, AUDIT_ARCH, nr as u32), kill);
    }
}

#[test]
fn trapped_calls_are_named_by_number() {
    let mut buf = [0u8; 64];
    let n = write_trap_message(59, &mut buf);
    assert_eq!(&buf[..n], b"[seccomp] blocked syscall 59\n");
    let n = write_trap_message(0, &mut buf);
    assert_eq!(&buf[..n], b"[seccomp] blocked syscall ?\n");
    let n = write_trap_message(u64::MAX, &mut buf);
    assert_eq!(&buf[..n], b"[seccomp] blocked syscall ?\n");
    let n = write_trap_message(u64::MAX - 1, &mut buf);
    assert_eq!(&buf[..n], b"[seccomp] blocked syscall 18446744073709551614\n");
}
