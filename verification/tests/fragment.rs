use ip_bypass_plus_frag::config::Int32Range;
use ip_bypass_plus_frag::fragment::{fragment_lengths, next_piece, pause_ms, record_size};

#[test]
fn records_end_where_their_header_says() {
    assert_eq!(record_size(&[22, 3, 1, 0, 0]), 5);
    assert_eq!(record_size(&[22, 3, 1, 2, 1]), 518);
    assert_eq!(record_size(&[22, 3, 1, 255, 255]), 65540);
}

#[test]
fn pieces_make_up_the_whole() {
    for len in [0usize, 1, 99, 100, 517, 65536] {
        let lengths = fragment_lengths(len, Int32Range { min: 100, max: 200 });
        assert_eq!(lengths.iter().sum::<usize>(), len);
        for (i, n) in lengths.iter().enumerate() {
            assert!(*n >= 1 && *n <= 200);
            if i + 1 < lengths.len() {
                assert!(*n >= 100);
            }
        }
    }
}

#[test]
fn piece_lengths_vary() {
    let lengths = fragment_lengths(100_000, Int32Range { min: 1, max: 100 });
    assert!(lengths.iter().any(|n| *n != lengths[0]));
    assert_eq!(fragment_lengths(7, Int32Range { min: 3, max: 3 }), vec![3, 3, 1]);
}

#[test]
fn next_piece_is_cut_short_at_the_end() {
    assert_eq!(next_piece(10, 3), 3);
    assert_eq!(next_piece(3, 3), 3);
    assert_eq!(next_piece(2, 3), 2);
    assert_eq!(next_piece(0, 3), 0);
}

#[test]
fn pauses_lie_in_the_interval() {
    for _ in 0..100 {
        let ms = pause_ms(Int32Range { min: 10, max: 20 });
        assert!((10..=20).contains(&ms));
    }
    assert_eq!(pause_ms(Int32Range { min: 4, max: 4 }), 4);
}
