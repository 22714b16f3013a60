use chromium_bridge::cef_base::new_cef_base_ref_counted;
use chromium_bridge::jni_name::{create_jni_fn_name, JNIName};
use chromium_bridge::paths::subp_path;
use chromium_bridge::unzip::Unzip4;

#[test]
fn jni_name_escapes_underscores_and_dots() {
    assert_eq!(
        create_jni_fn_name("org.eclipse.set.browser.lib.ChromiumLib", "cefswt_function_id", ""),
        "Java_org_eclipse_set_browser_lib_ChromiumLib_cefswt_1function_1id"
    );
    assert_eq!(
        create_jni_fn_name("org.eclipse.set.browser.lib.cefswt_cookie_visitor_t", "cefswt_cookie_value", ""),
        "Java_org_eclipse_set_browser_lib_cefswt_1cookie_1visitor_1t_cefswt_1cookie_1value"
    );
    assert_eq!(create_jni_fn_name("a.B", "f", "_t"), "Java_a_B_f_1t");
}

#[test]
fn jni_name_struct_uses_its_fields() {
    let n = JNIName { namespace: "org.x.Lib".to_string(), suffix: "cef_t".to_string() };
    assert_eq!(n.fn_name("do_it"), "Java_org_x_Lib_do_1itcef_1t");
}

#[test]
fn subprocess_path_ends_with_executable() {
    let p = subp_path("/opt/app", "1.0");
    assert!(p == "/opt/app/chromium_subp.exe" || p == "/opt/app\\chromium_subp.exe");
    assert_eq!(subp_path("/opt/app/", "2"), "/opt/app/chromium_subp.exe");
    assert_eq!(subp_path("", "1.0"), "chromium_subp.exe");
}

#[test]
fn ref_counted_header_holds_size() {
    assert_eq!(new_cef_base_ref_counted(72).size, 72);
}

#[test]
fn unzip4_splits_by_position() {
    let v = vec![(1u8, 'a', "x", true), (2u8, 'b', "y", false), (3u8, 'c', "z", true)];
    let (a, b, c, d) = v.unzip4();
    assert_eq!(a, vec![1, 2, 3]);
    assert_eq!(b, vec!['a', 'b', 'c']);
    assert_eq!(c, vec!["x", "y", "z"]);
    assert_eq!(d, vec![true, false, true]);
    let empty: Vec<(u8, u8, u8, u8)> = Vec::new();
    let (e, _, _, h) = empty.unzip4();
    assert!(e.is_empty() && h.is_empty());
}
