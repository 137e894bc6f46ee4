use dyncall::abi::abi_mode;

#[test]
fn every_documented_name_has_its_mode() {
    let table: Vec<(&str, i32)> = vec![
        ("c_default", 0),
        ("c_ellipsis", 100),
        ("c_ellipsis_varargs", 101),
        ("c_x86_cdecl", 1),
        ("c_x86_win32_std", 2),
        ("c_x86_win32_fast_ms", 3),
        ("c_x86_win32_fast_gnu", 4),
        ("c_x86_win32_this_ms", 5),
        ("c_x86_win32_this_gnu", 1),
        ("c_x64_win64", 7),
        ("c_x64_sysv", 8),
        ("c_ppc32_darwin", 9),
        ("c_ppc32_osx", 9),
        ("c_arm_arm_eabi", 10),
        ("c_arm_thumb_eabi", 11),
        ("c_arm_armhf", 30),
        ("c_mips32_eabi", 12),
        ("c_mips32_pspsdk", 12),
        ("c_ppc32_sysv", 13),
        ("c_ppc32_linux", 13),
        ("c_arm_arm", 14),
        ("c_arm_thumb", 15),
        ("c_mips32_o32", 16),
        ("c_mips64_n32", 17),
        ("c_mips64_n64", 18),
        ("c_x86_plan9", 19),
        ("c_sparc32", 20),
        ("c_sparc64", 21),
        ("c_arm64", 22),
        ("c_ppc64", 23),
        ("c_ppc64_linux", 23),
        ("sys_default", 200),
        ("sys_x86_int80h_linux", 201),
        ("sys_x86_int80h_bsd", 202),
        ("sys_x64_syscall_sysv", 204),
        ("sys_ppc32", 210),
        ("sys_ppc64", 211),
    ];
    for (name, mode) in table {
        assert_eq!(abi_mode(name), Some(mode), "{}", name);
    }
}

#[test]
fn aliases_select_the_convention_they_stand_for() {
    assert_eq!(abi_mode("c_x86_win32_this_gnu"), abi_mode("c_x86_cdecl"));
    assert_eq!(abi_mode("c_ppc32_osx"), abi_mode("c_ppc32_darwin"));
    assert_eq!(abi_mode("c_mips32_pspsdk"), abi_mode("c_mips32_eabi"));
    assert_eq!(abi_mode("c_ppc32_linux"), abi_mode("c_ppc32_sysv"));
    assert_eq!(abi_mode("c_ppc64_linux"), abi_mode("c_ppc64"));
}

#[test]
fn unknown_names_are_refused() {
    assert_eq!(abi_mode(""), None);
    assert_eq!(abi_mode("c_defaul"), None);
    assert_eq!(abi_mode("c_default "), None);
    assert_eq!(abi_mode("C_DEFAULT"), None);
    assert_eq!(abi_mode("stdcall"), None);
    assert_eq!(abi_mode("sys_ppc64_"), None);
    assert_eq!(abi_mode("c_défault"), None);
}

#[test]
fn this_ms_is_a_convention_of_its_own() {
    assert_eq!(abi_mode("c_x86_win32_this_ms"), Some(5));
    assert_ne!(abi_mode("c_x86_win32_this_ms"), abi_mode("c_x86_win32_fast_ms"));
}
