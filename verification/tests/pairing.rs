use bs2b::streaming::{
    pairing_after_left, pairing_after_process, pairing_after_right, pairing_begin, PairingAction,
};

/// Drives the pairing steps over `input` the way the stereo source adapter
/// does, with `process` standing for the crossfeed of one frame.
fn drive(input: &[i32], process: impl Fn(i32, i32) -> (i32, i32)) -> Vec<i32> {
    let mut inner = input.iter().copied();
    let mut pending: Option<i32> = None;
    let mut output = Vec::new();
    loop {
        let (held, mut action) = pairing_begin(pending.take());
        pending = held;
        let next = loop {
            action = match action {
                PairingAction::Yield(sample) => break Some(sample),
                PairingAction::End => break None,
                PairingAction::PullLeft => pairing_after_left(inner.next()),
                PairingAction::PullRight(left) => pairing_after_right(left, inner.next()),
                PairingAction::Process(left, right) => {
                    let (left, right) = process(left, right);
                    let (held, next) = pairing_after_process(left, right);
                    pending = held;
                    next
                }
            };
        };
        match next {
            Some(sample) => output.push(sample),
            None => return output,
        }
    }
}

#[test]
fn pairing_begin_hands_out_held_sample_first() {
    assert_eq!(pairing_begin(Some(7)), (None, PairingAction::Yield(7)));
    assert_eq!(pairing_begin::<i32>(None), (None, PairingAction::PullLeft));
}

#[test]
fn pairing_steps_after_pulls() {
    assert_eq!(pairing_after_left::<i32>(None), PairingAction::End);
    assert_eq!(pairing_after_left(Some(3)), PairingAction::PullRight(3));
    assert_eq!(pairing_after_right(3, None), PairingAction::Yield(3));
    assert_eq!(pairing_after_right(3, Some(4)), PairingAction::Process(3, 4));
    assert_eq!(pairing_after_process(30, 40), (Some(40), PairingAction::Yield(30)));
}

#[test]
fn pairing_stream_holds_back_right_output() {
    let output = drive(&[1, 2, 3, 4], |l, r| (l * 10 + r, r * 10 + l));
    assert_eq!(output, vec![12, 21, 34, 43]);
}

#[test]
fn pairing_stream_passes_odd_tail_through() {
    let output = drive(&[1, 2, 3, 4, 5], |l, r| (-l, -r));
    assert_eq!(output, vec![-1, -2, -3, -4, 5]);
    assert_eq!(drive(&[9], |l, r| (-l, -r)), vec![9]);
}

#[test]
fn pairing_stream_of_nothing_ends() {
    assert_eq!(drive(&[], |l, r| (l, r)), Vec::<i32>::new());
}
