//! Signs of a debugger or of an instrumentation framework in the process.
use crate::error::HardeningError;
use crate::text;
use crate::text::{has_part, lines_from, lower, strip_spec, texts, trim_spec};
use vstd::prelude::*;

verus! {

/// Whether a line of the process status names a tracer.
pub open spec fn names_tracer(line: Seq<char>) -> bool {
    strip_spec(line, "TracerPid:\t"@) matches Some(pid) && trim_spec(pid) != "0"@
}

/// Whether a process status shows a debugger.
pub open spec fn traced(status: Seq<char>) -> bool {
    exists|i: int|
        0 <= i < lines_from(status, 0).len() && names_tracer(
            #[trigger] lines_from(status, 0)[i],
        )
}

/// Whether a line of the process status names a tracer.
fn line_names_tracer(line: &str) -> (r: bool)
    ensures
        r == names_tracer(line@),
{
    match text::strip_prefix(line, "TracerPid:\t") {
        None => false,
        Some(pid) => {
            let t = text::trim(pid.as_str());
            !t.eq(&"0".to_owned())
        },
    }
}

/// Looks for a debugger in the process status, which may not have been
/// readable.
pub fn check_no_debugger(status: Option<&str>) -> (r: Result<(), HardeningError>)
    ensures
        match status {
            None => r == Err::<(), HardeningError>(HardeningError::IntegrityCheckFailed),
            Some(s) => r == (if traced(s@) {
                Err::<(), HardeningError>(HardeningError::DebuggerDetected)
            } else {
                Ok(())
            }),
        },
{
    let s = match status {
        Some(s) => s,
        None => {
            return Err(HardeningError::IntegrityCheckFailed);
        },
    };
    let lines = text::lines(s);
    let ghost all = lines_from(s@, 0);
    let mut i: usize = 0;
    while i < lines.len()
        invariant
            i <= lines@.len(),
            status == Some(s),
            all == texts(lines@),
            all == lines_from(s@, 0),
            forall|j: int| 0 <= j < i ==> !names_tracer(#[trigger] all[j]),
        decreases lines@.len() - i,
    {
        assert(all[i as int] == lines@[i as int]@);
        if line_names_tracer(lines[i].as_str()) {
            assert(names_tracer(lines_from(s@, 0)[i as int]));
            return Err(HardeningError::DebuggerDetected);
        }
        i = i + 1;
    }
    Ok(())
}

/// Whether a memory map shows an instrumentation framework, whatever the case.
pub open spec fn injected(maps: Seq<char>) -> bool {
    let m = lower(maps);
    has_part(m, "frida"@) || has_part(m, "xposed"@) || has_part(m, "substrate"@) || has_part(
        m,
        "gadget"@,
    )
}

/// Looks for instrumentation frameworks in the memory map, which may not have
/// been readable.
pub fn check_no_injection(maps: Option<&str>) -> (r: Result<(), HardeningError>)
    ensures
        match maps {
            None => r == Err::<(), HardeningError>(HardeningError::IntegrityCheckFailed),
            Some(m) => r == (if injected(m@) {
                Err::<(), HardeningError>(HardeningError::InjectionDetected)
            } else {
                Ok(())
            }),
        },
{
    let m = match maps {
        Some(m) => text::lower_case(m),
        None => {
            return Err(HardeningError::IntegrityCheckFailed);
        },
    };
    if text::contains(m.as_str(), "frida") || text::contains(m.as_str(), "xposed")
        || text::contains(m.as_str(), "substrate") || text::contains(m.as_str(), "gadget") {
        Err(HardeningError::InjectionDetected)
    } else {
        Ok(())
    }
}

/// What the process status and the memory map show, in this order.
pub open spec fn integrity(status: Option<Seq<char>>, maps: Option<Seq<char>>) -> Result<
    (),
    HardeningError,
> {
    match status {
        None => Err(HardeningError::IntegrityCheckFailed),
        Some(s) => if traced(s) {
            Err(HardeningError::DebuggerDetected)
        } else {
            match maps {
                None => Err(HardeningError::IntegrityCheckFailed),
                Some(m) => if injected(m) {
                    Err(HardeningError::InjectionDetected)
                } else {
                    Ok(())
                },
            }
        },
    }
}

/// The view of an optional text.
pub open spec fn seen(s: Option<&str>) -> Option<Seq<char>> {
    match s {
        Some(t) => Some(t@),
        None => None,
    }
}

/// Checks the process before any secret is in it: no debugger, no framework.
pub fn verify_runtime_integrity(status: Option<&str>, maps: Option<&str>) -> (r: Result<
    (),
    HardeningError,
>)
    ensures
        r == integrity(seen(status), seen(maps)),
{
    match check_no_debugger(status) {
        Err(e) => Err(e),
        Ok(()) => check_no_injection(maps),
    }
}

} // verus!
