use sel4_bookkeeping::ipc::{
    seL4_IPCBuffer, seL4_MessageInfo, CallWithMRs, FastMessages, MessageInfo, RecvWithMRs, Word,
    NUM_EXTRA_CAPS, NUM_FAST_MESSAGE_REGISTERS, NUM_MESSAGE_REGISTERS,
};

fn buffer() -> seL4_IPCBuffer {
    seL4_IPCBuffer {
        tag: seL4_MessageInfo(0),
        msg: [0; 120],
        user_data: 0,
        caps_or_badges: [0; 3],
        receive_cnode: 0,
        receive_index: 0,
        receive_depth: 0,
    }
}

#[test]
fn register_counts() {
    assert_eq!(NUM_FAST_MESSAGE_REGISTERS, 4);
    assert_eq!(NUM_MESSAGE_REGISTERS, 120);
    assert_eq!(NUM_EXTRA_CAPS, 3);
}

#[test]
fn message_info_word_round_trips() {
    let info = seL4_MessageInfo::from_word(0xabcd_0123);
    assert_eq!(info.into_word(), 0xabcd_0123);
    assert_eq!(seL4_MessageInfo::from_word(info.into_word()), info);
    assert_eq!(MessageInfo::from_inner(info).into_inner(), info);
}

#[test]
fn length_is_the_low_seven_bits() {
    assert_eq!(seL4_MessageInfo(0).get_length(), 0);
    assert_eq!(seL4_MessageInfo(5).get_length(), 5);
    assert_eq!(seL4_MessageInfo(0x7f).get_length(), 127);
    assert_eq!(seL4_MessageInfo(0x80).get_length(), 0);
    assert_eq!(seL4_MessageInfo(0xffff_ff83).get_length(), 3);
    assert_eq!(seL4_MessageInfo(u64::MAX).get_length(), 127);
}

#[test]
fn msg_helper_gives_the_word_within_the_length() {
    let info = seL4_MessageInfo(2);
    assert_eq!(info.msg_helper(Some(11), 0), 11);
    assert_eq!(info.msg_helper(Some(22), 1), 22);
    assert_eq!(info.msg_helper(Some(33), 2), 0);
    assert_eq!(info.msg_helper(Some(44), 3), 0);
    assert_eq!(info.msg_helper(None, 0), 0);
    assert_eq!(info.msg_helper(None, 5), 0);
    assert_eq!(seL4_MessageInfo(0).msg_helper(Some(9), 0), 0);
    assert_eq!(seL4_MessageInfo(0x80 | 1).msg_helper(Some(9), 0), 9);
    assert_eq!(seL4_MessageInfo(0x80 | 1).msg_helper(Some(9), 1), 0);
}

#[test]
fn message_registers_are_read_and_written_by_index() {
    let mut b = buffer();
    b.set_mr(0, 10);
    b.set_mr(119, 20);
    b.set_mr(5, 30);
    assert_eq!(b.get_mr(0), 10);
    assert_eq!(b.get_mr(119), 20);
    assert_eq!(b.get_mr(5), 30);
    assert_eq!(b.get_mr(1), 0);
    b.set_mr(5, 31);
    assert_eq!(b.get_mr(5), 31);
    assert_eq!(b.caps_or_badges, [0; 3]);
    assert_eq!(b.tag, seL4_MessageInfo(0));
}

#[test]
fn caps_are_read_and_written_by_index() {
    let mut b = buffer();
    b.set_cap(0, 7);
    b.set_cap(2, 9);
    assert_eq!(b.get_cap(0), 7);
    assert_eq!(b.get_cap(1), 0);
    assert_eq!(b.get_cap(2), 9);
    assert_eq!(b.msg, [0; 120]);
}

#[test]
fn arrays_are_prepared_for_sending() {
    let none: [Word; 0] = [];
    assert_eq!(none.prepare_in(), [None, None, None, None]);
    assert_eq!([5u64].prepare_in(), [Some(5), None, None, None]);
    assert_eq!([5u64, 6].prepare_in(), [Some(5), Some(6), None, None]);
    assert_eq!([5u64, 6, 7].prepare_in(), [Some(5), Some(6), Some(7), None]);
    assert_eq!([5u64, 6, 7, 8].prepare_in(), [Some(5), Some(6), Some(7), Some(8)]);
    assert_eq!([0u64, 0].prepare_in(), [Some(0), Some(0), None, None]);
}

#[test]
fn arrays_are_prepared_for_a_call() {
    let none: [Word; 0] = [];
    assert_eq!(none.prepare_in_out(), [0, 0, 0, 0]);
    assert_eq!([5u64].prepare_in_out(), [5, 0, 0, 0]);
    assert_eq!([5u64, 6, 7].prepare_in_out(), [5, 6, 7, 0]);
    assert_eq!([5u64, 6, 7, 8].prepare_in_out(), [5, 6, 7, 8]);
}

#[test]
fn slices_are_prepared_like_arrays() {
    let words: Vec<Word> = vec![1, 2, 3];
    assert_eq!(words.as_slice().prepare_in(), [Some(1), Some(2), Some(3), None]);
    assert_eq!(words.as_slice().prepare_in_out(), [1, 2, 3, 0]);
    let empty: &[Word] = &[];
    assert_eq!(empty.prepare_in(), [None, None, None, None]);
    assert_eq!(empty.prepare_in_out(), [0, 0, 0, 0]);
    let full: &[Word] = &[9, 8, 7, 6];
    assert_eq!(full.prepare_in(), [Some(9), Some(8), Some(7), Some(6)]);
    assert_eq!(full.prepare_in_out(), [9, 8, 7, 6]);
}

#[test]
fn results_hold_what_they_are_given() {
    let info = MessageInfo::from_inner(seL4_MessageInfo::from_word(3));
    let r = RecvWithMRs { info, badge: 77, msg: [1, 2, 3, 0] };
    assert_eq!(r.info.into_inner().get_length(), 3);
    assert_eq!(r.badge, 77);
    assert_eq!(r.msg, [1, 2, 3, 0]);
    let c = CallWithMRs { info, msg: [4, 5, 6, 7] };
    assert_eq!(c.info, info);
    assert_eq!(c.msg[3], 7);
}
