use fixfifa::cors::{module_index, process_id_of, remote_proc_address, ParamWrapper};
use fixfifa::ui::{flash_or_unknown, Context};
use fixfifa::settings::Settings;

#[test]
fn one_process_by_name() {
    assert_eq!(process_id_of(&[42]), Ok(42));
    assert_eq!(process_id_of(&[]), Err("Process not found!"));
    assert_eq!(process_id_of(&[1, 2]), Err("Process not found!"));
}

#[test]
fn module_by_name() {
    let names = vec![Some("a.dll".to_string()), None, Some("fixfifa.dll".to_string()), Some("fixfifa.dll".to_string())];
    assert_eq!(module_index(&names, "fixfifa.dll"), Some(2));
    assert_eq!(module_index(&names, "b.dll"), None);
}

#[test]
fn routine_keeps_its_offset() {
    assert_eq!(remote_proc_address(0x7FF0_1234, 0x7FF0_0000, 0x1_0000_0000), 0x1_0000_1234);
    let w = ParamWrapper { ptr_param: 1, ptr_result: 2 };
    let c = w;
    assert_eq!((c.ptr_param, c.ptr_result), (1, 2));
}

#[test]
fn flash_defaults_to_unknown_error() {
    assert_eq!(flash_or_unknown(None), Some(("error", "unknown error")));
    assert_eq!(flash_or_unknown(Some(("success", "ok"))), Some(("success", "ok")));
    let s = Settings { alt_tab: true, blacklist: false, skip_launcher: true, skip_language_selection: false };
    let c = Context::raw(Some(("success", "ok")), s);
    assert_eq!(c.flash, Some(("success", "ok")));
    assert!(c.settings.alt_tab && !c.settings.blacklist);
}
