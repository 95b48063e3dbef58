use trusty_ipc::error::TipcError;
use trusty_ipc::fragment::{
    fragments, placeholder_more_to_come, Fragmenter, Reassembler, PREFIX_FINAL_FRAGMENT,
    PREFIX_MORE_TO_COME,
};

#[test]
fn fragments_of_a_short_message() {
    assert_eq!(fragments(&[1, 2, 3], 10), vec![vec![PREFIX_FINAL_FRAGMENT, 1, 2, 3]]);
    assert_eq!(fragments(&[1, 2, 3], 4), vec![vec![PREFIX_FINAL_FRAGMENT, 1, 2, 3]]);
    assert!(fragments(&[], 4).is_empty());
}

#[test]
fn fragments_of_a_long_message() {
    assert_eq!(
        fragments(&[1, 2, 3, 4, 5], 3),
        vec![
            vec![PREFIX_MORE_TO_COME, 1, 2],
            vec![PREFIX_MORE_TO_COME, 3, 4],
            vec![PREFIX_FINAL_FRAGMENT, 5]
        ]
    );
    assert_eq!(
        fragments(&[1, 2, 3, 4], 3),
        vec![vec![PREFIX_MORE_TO_COME, 1, 2], vec![PREFIX_FINAL_FRAGMENT, 3, 4]]
    );
}

#[test]
fn fragmenter_hands_out_one_fragment_at_a_time() {
    let data = [9u8, 8, 7];
    let mut fragmenter = Fragmenter::new(&data, 2);
    assert_eq!(fragmenter.next(), Some(vec![PREFIX_MORE_TO_COME, 9]));
    assert_eq!(fragmenter.next(), Some(vec![PREFIX_MORE_TO_COME, 8]));
    assert_eq!(fragmenter.next(), Some(vec![PREFIX_FINAL_FRAGMENT, 7]));
    assert_eq!(fragmenter.next(), None);
    assert_eq!(fragmenter.next(), None);
}

#[test]
fn fragments_are_reassembled_in_order() {
    for len in [1usize, 2, 99, 100, 101, 1000, 4097] {
        for max_size in [2usize, 3, 100, 101, 4000] {
            let payload: Vec<u8> = (0..len).map(|i| (i * 31 % 256) as u8).collect();
            let frags = fragments(&payload, max_size);
            let mut reassembler = Reassembler::new();
            for (i, frag) in frags.iter().enumerate() {
                assert!(frag.len() <= max_size);
                let answer = reassembler.accumulate(frag);
                if i + 1 < frags.len() {
                    assert_eq!(answer, Ok(None));
                } else {
                    assert_eq!(answer, Ok(Some(payload.clone())));
                }
            }
        }
    }
}

#[test]
fn reassembler_starts_over_after_a_message() {
    let mut reassembler = Reassembler::new();
    assert_eq!(reassembler.accumulate(&[PREFIX_MORE_TO_COME, 1]), Ok(None));
    assert_eq!(reassembler.accumulate(&[PREFIX_FINAL_FRAGMENT, 2]), Ok(Some(vec![1, 2])));
    assert_eq!(reassembler.accumulate(&[PREFIX_FINAL_FRAGMENT, 3]), Ok(Some(vec![3])));
    assert_eq!(reassembler.accumulate(&[]), Ok(Some(vec![])));
    assert_eq!(reassembler.accumulate(&[PREFIX_MORE_TO_COME]), Ok(None));
    assert_eq!(reassembler.accumulate(&[PREFIX_FINAL_FRAGMENT]), Ok(Some(vec![])));
}

#[test]
fn reassembler_refuses_unknown_markers() {
    let mut reassembler = Reassembler::new();
    assert_eq!(reassembler.accumulate(&[PREFIX_MORE_TO_COME, 1]), Ok(None));
    assert_eq!(reassembler.accumulate(&[0x00, 2]), Err(TipcError::InvalidData));
    // What was gathered is still there.
    assert_eq!(reassembler.accumulate(&[PREFIX_FINAL_FRAGMENT, 3]), Ok(Some(vec![1, 3])));
}

#[test]
fn reassembler_keeps_to_its_limit() {
    let mut reassembler = Reassembler::with_limit(4);
    assert_eq!(reassembler.accumulate(&[PREFIX_MORE_TO_COME, 1, 2, 3]), Ok(None));
    assert_eq!(reassembler.accumulate(&[PREFIX_MORE_TO_COME, 4, 5]), Err(TipcError::InvalidData));
    assert_eq!(reassembler.accumulate(&[PREFIX_FINAL_FRAGMENT, 4, 5]), Err(TipcError::InvalidData));
    assert_eq!(reassembler.accumulate(&[PREFIX_FINAL_FRAGMENT, 4]), Ok(Some(vec![1, 2, 3, 4])));
    assert_eq!(
        reassembler.accumulate(&[PREFIX_FINAL_FRAGMENT, 1, 2, 3, 4, 5]),
        Err(TipcError::InvalidData)
    );
}

#[test]
fn placeholder_is_the_marker_alone() {
    assert_eq!(placeholder_more_to_come(), vec![0xcc]);
}
