use audio_switch::message::{
    message_loop_step, window_callback, LoopAction, WindowAction, HIWORD, LOWORD, NIN_SELECT,
    TASKBAR_CB_ID, WM_COMMAND, WM_DESTROY, WM_QUIT, WM_RBUTTONUP,
};

#[test]
fn words_of_a_parameter() {
    assert_eq!(LOWORD(0x1234_5678), 0x5678);
    assert_eq!(HIWORD(0x1234_5678), 0x1234);
    assert_eq!(LOWORD(0), 0);
    assert_eq!(HIWORD(0xffff), 0);
    assert_eq!(LOWORD(0x7fff_ffff), 0xffff);
    assert_eq!(HIWORD(0x7fff_ffff), 0x7fff);
}

#[test]
fn words_of_a_negative_parameter() {
    assert_eq!(LOWORD(-1), 0xffff);
    assert_eq!(HIWORD(-1), 0xffff);
    assert_eq!(LOWORD(-0x10000), 0);
    assert_eq!(HIWORD(-0x10000), 0xffff);
    assert_eq!(LOWORD(isize::MIN), 0);
}

#[test]
fn words_together_are_the_low_bits() {
    for l in [0isize, 1, -1, 0x1234_5678, -0x1234_5678, isize::MAX, isize::MIN] {
        assert_eq!((HIWORD(l) * 0x10000 + LOWORD(l)) as u32, l as u32);
    }
}

#[test]
fn right_click_shows_the_menu() {
    assert_eq!(
        window_callback(TASKBAR_CB_ID, 0, WM_RBUTTONUP as isize),
        WindowAction::ShowPopupMenu
    );
    assert_eq!(
        window_callback(TASKBAR_CB_ID, 7, 0x0001_0000 + WM_RBUTTONUP as isize),
        WindowAction::ShowPopupMenu
    );
}

#[test]
fn selecting_the_icon_goes_to_the_next_device() {
    assert_eq!(TASKBAR_CB_ID, 0x8042);
    assert_eq!(
        window_callback(TASKBAR_CB_ID, 0, NIN_SELECT as isize),
        WindowAction::NextDevice
    );
}

#[test]
fn menu_command_carries_its_id_in_the_low_word() {
    assert_eq!(
        window_callback(WM_COMMAND, 0xabcd, 99),
        WindowAction::MenuSelection { id: 0xabcd }
    );
    assert_eq!(
        window_callback(WM_COMMAND, 0x5_abcd, 99),
        WindowAction::MenuSelection { id: 0xabcd }
    );
    assert_eq!(
        window_callback(WM_COMMAND, usize::MAX, 0),
        WindowAction::MenuSelection { id: 0xffff }
    );
}

#[test]
fn other_messages_are_left_alone() {
    assert_eq!(window_callback(WM_DESTROY, 1, 1), WindowAction::Shutdown);
    assert_eq!(window_callback(TASKBAR_CB_ID, 0, 0x0200), WindowAction::Default);
    assert_eq!(window_callback(0x0001, 0, NIN_SELECT as isize), WindowAction::Default);
    assert_eq!(window_callback(TASKBAR_CB_ID + 1, 0, NIN_SELECT as isize), WindowAction::Default);
}

#[test]
fn message_loop_goes_on_until_quit() {
    assert_eq!(message_loop_step(0, WM_QUIT), LoopAction::Quit);
    assert_eq!(message_loop_step(-1, 0), LoopAction::ReportError);
    assert_eq!(message_loop_step(1, WM_COMMAND), LoopAction::Dispatch);
    assert_eq!(message_loop_step(-2, WM_COMMAND), LoopAction::Dispatch);
}

#[test]
fn window_answers_what_it_acts_on() {
    assert_eq!(WindowAction::ShowPopupMenu.answer(), Some(0));
    assert_eq!(WindowAction::NextDevice.answer(), Some(0));
    assert_eq!(WindowAction::MenuSelection { id: 7 }.answer(), Some(0));
    assert_eq!(WindowAction::Shutdown.answer(), Some(0));
    assert_eq!(WindowAction::Default.answer(), None);
}
