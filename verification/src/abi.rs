//! Calling conventions, looked up by name.
use vstd::prelude::*;
use vstd::string::StrSliceExecFns;
use libc::c_int;

verus! {

/// The mode number of the calling convention called `name`, or `None` when the
/// name is not one of the supported calling conventions. Aliases name the same
/// mode as the convention they stand for.
pub open spec fn abi_code(name: Seq<char>) -> Option<c_int> {
    if name == "c_default"@ {
        Some(0)
    } else if name == "c_ellipsis"@ {
        Some(100)
    } else if name == "c_ellipsis_varargs"@ {
        Some(101)
    } else if name == "c_x86_cdecl"@ {
        Some(1)
    } else if name == "c_x86_win32_std"@ {
        Some(2)
    } else if name == "c_x86_win32_fast_ms"@ {
        Some(3)
    } else if name == "c_x86_win32_fast_gnu"@ {
        Some(4)
    } else if name == "c_x86_win32_this_ms"@ {
        Some(5)
    } else if name == "c_x86_win32_this_gnu"@ {
        Some(1)
    } else if name == "c_x64_win64"@ {
        Some(7)
    } else if name == "c_x64_sysv"@ {
        Some(8)
    } else if name == "c_ppc32_darwin"@ {
        Some(9)
    } else if name == "c_ppc32_osx"@ {
        Some(9)
    } else if name == "c_arm_arm_eabi"@ {
        Some(10)
    } else if name == "c_arm_thumb_eabi"@ {
        Some(11)
    } else if name == "c_arm_armhf"@ {
        Some(30)
    } else if name == "c_mips32_eabi"@ {
        Some(12)
    } else if name == "c_mips32_pspsdk"@ {
        Some(12)
    } else if name == "c_ppc32_sysv"@ {
        Some(13)
    } else if name == "c_ppc32_linux"@ {
        Some(13)
    } else if name == "c_arm_arm"@ {
        Some(14)
    } else if name == "c_arm_thumb"@ {
        Some(15)
    } else if name == "c_mips32_o32"@ {
        Some(16)
    } else if name == "c_mips64_n32"@ {
        Some(17)
    } else if name == "c_mips64_n64"@ {
        Some(18)
    } else if name == "c_x86_plan9"@ {
        Some(19)
    } else if name == "c_sparc32"@ {
        Some(20)
    } else if name == "c_sparc64"@ {
        Some(21)
    } else if name == "c_arm64"@ {
        Some(22)
    } else if name == "c_ppc64"@ {
        Some(23)
    } else if name == "c_ppc64_linux"@ {
        Some(23)
    } else if name == "sys_default"@ {
        Some(200)
    } else if name == "sys_x86_int80h_linux"@ {
        Some(201)
    } else if name == "sys_x86_int80h_bsd"@ {
        Some(202)
    } else if name == "sys_x64_syscall_sysv"@ {
        Some(204)
    } else if name == "sys_ppc32"@ {
        Some(210)
    } else if name == "sys_ppc64"@ {
        Some(211)
    } else {
        None
    }
}

/// Whether two strings hold the same characters.
fn same_text(a: &str, b: &str) -> (r: bool)
    ensures
        r == (a@ == b@),
{
    let n = a.unicode_len();
    let m = b.unicode_len();
    if n != m {
        return false;
    }
    let mut i: usize = 0;
    while i < n
        invariant
            n as nat == a@.len(),
            m as nat == b@.len(),
            n == m,
            i <= n,
            forall|j: int| 0 <= j < i ==> a@[j] == b@[j],
        decreases n - i,
    {
        if a.get_char(i) != b.get_char(i) {
            return false;
        }
        i = i + 1;
    }
    assert(a@ =~= b@);
    true
}

/// The mode number that selects the calling convention (or abi) called `name`,
/// or `None` when `name` is not a valid name. Valid `name`s are:
///
/// ```text
/// "c_default"
/// "c_ellipsis"
/// "c_ellipsis_varargs"
/// "c_x86_cdecl"
/// "c_x86_win32_std"
/// "c_x86_win32_fast_ms"
/// "c_x86_win32_fast_gnu"
/// "c_x86_win32_this_ms"
/// "c_x86_win32_this_gnu"
/// "c_x64_win64"
/// "c_x64_sysv"
/// "c_ppc32_darwin"
/// "c_ppc32_osx"
/// "c_arm_arm_eabi"
/// "c_arm_thumb_eabi"
/// "c_arm_armhf"
/// "c_mips32_eabi"
/// "c_mips32_pspsdk"
/// "c_ppc32_sysv"
/// "c_ppc32_linux"
/// "c_arm_arm"
/// "c_arm_thumb"
/// "c_mips32_o32"
/// "c_mips64_n32"
/// "c_mips64_n64"
/// "c_x86_plan9"
/// "c_sparc32"
/// "c_sparc64"
/// "c_arm64"
/// "c_ppc64"
/// "c_ppc64_linux"
/// "sys_default"
/// "sys_x86_int80h_linux"
/// "sys_x86_int80h_bsd"
/// "sys_x64_syscall_sysv"
/// "sys_ppc32"
/// "sys_ppc64"
/// ```
pub fn abi_mode(name: &str) -> (r: Option<c_int>)
    ensures
        r == abi_code(name@),
{
    if same_text(name, "c_default") {
        Some(0)
    } else if same_text(name, "c_ellipsis") {
        Some(100)
    } else if same_text(name, "c_ellipsis_varargs") {
        Some(101)
    } else if same_text(name, "c_x86_cdecl") {
        Some(1)
    } else if same_text(name, "c_x86_win32_std") {
        Some(2)
    } else if same_text(name, "c_x86_win32_fast_ms") {
        Some(3)
    } else if same_text(name, "c_x86_win32_fast_gnu") {
        Some(4)
    } else if same_text(name, "c_x86_win32_this_ms") {
        Some(5)
    } else if same_text(name, "c_x86_win32_this_gnu") {
        Some(1)
    } else if same_text(name, "c_x64_win64") {
        Some(7)
    } else if same_text(name, "c_x64_sysv") {
        Some(8)
    } else if same_text(name, "c_ppc32_darwin") {
        Some(9)
    } else if same_text(name, "c_ppc32_osx") {
        Some(9)
    } else if same_text(name, "c_arm_arm_eabi") {
        Some(10)
    } else if same_text(name, "c_arm_thumb_eabi") {
        Some(11)
    } else if same_text(name, "c_arm_armhf") {
        Some(30)
    } else if same_text(name, "c_mips32_eabi") {
        Some(12)
    } else if same_text(name, "c_mips32_pspsdk") {
        Some(12)
    } else if same_text(name, "c_ppc32_sysv") {
        Some(13)
    } else if same_text(name, "c_ppc32_linux") {
        Some(13)
    } else if same_text(name, "c_arm_arm") {
        Some(14)
    } else if same_text(name, "c_arm_thumb") {
        Some(15)
    } else if same_text(name, "c_mips32_o32") {
        Some(16)
    } else if same_text(name, "c_mips64_n32") {
        Some(17)
    } else if same_text(name, "c_mips64_n64") {
        Some(18)
    } else if same_text(name, "c_x86_plan9") {
        Some(19)
    } else if same_text(name, "c_sparc32") {
        Some(20)
    } else if same_text(name, "c_sparc64") {
        Some(21)
    } else if same_text(name, "c_arm64") {
        Some(22)
    } else if same_text(name, "c_ppc64") {
        Some(23)
    } else if same_text(name, "c_ppc64_linux") {
        Some(23)
    } else if same_text(name, "sys_default") {
        Some(200)
    } else if same_text(name, "sys_x86_int80h_linux") {
        Some(201)
    } else if same_text(name, "sys_x86_int80h_bsd") {
        Some(202)
    } else if same_text(name, "sys_x64_syscall_sysv") {
        Some(204)
    } else if same_text(name, "sys_ppc32") {
        Some(210)
    } else if same_text(name, "sys_ppc64") {
        Some(211)
    } else {
        None
    }
}

} // verus!
