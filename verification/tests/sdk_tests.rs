use winres::win_sdk_inlcude_root;

#[test]
fn toolkit_include_win10() {
    let res = win_sdk_inlcude_root(
        r"C:\Program Files (x86)\Windows Kits\10\bin\10.0.17763.0\x64\rc.exe",
    );
    assert_eq!(
        res.as_str(),
        r"C:\Program Files (x86)\Windows Kits\10\Include\10.0.17763.0"
    );
}

#[test]
fn toolkit_include_win8() {
    let res = win_sdk_inlcude_root(r"C:\Program Files (x86)\Windows Kits\8.1\bin\x86\rc.exe");
    assert_eq!(res.as_str(), r"C:\Program Files (x86)\Windows Kits\8.1\Include");
}

#[test]
fn toolkit_include_without_bin() {
    let res = win_sdk_inlcude_root(r"C:\somewhere\rc.exe");
    assert_eq!(res.as_str(), r"C:\somewhere\rc.exe");
}
