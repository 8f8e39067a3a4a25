//! Panning gains: positions and spreads are in thousandths of a channel
//! index; the function returns one numerator per channel over a common
//! denominator, so a fraction equal to the denominator is a gain of one.

use soundscape::panning::simple_panning_channel_volumes;

#[test]
fn zero_distance_is_max_volume() {
    let output_channel_count: u16 = 2;

    assert_eq!(
        simple_panning_channel_volumes(0, 0, output_channel_count),
        (vec![1000, 0], 1000),
    );
}

#[test]
fn halfway_is_half_volume() {
    let output_channel_count: u16 = 2;

    assert_eq!(
        simple_panning_channel_volumes(500, 0, output_channel_count),
        (vec![500, 500], 1000)
    );
}

#[test]
fn whole_channel_spread_stereo() {
    let output_channel_count: u16 = 2;

    assert_eq!(
        simple_panning_channel_volumes(1000, 1000, output_channel_count),
        (vec![1000, 2000], 2000)
    );
}

#[test]
fn zero_spread_quad_right() {
    let output_channel_count: u16 = 4;

    assert_eq!(
        simple_panning_channel_volumes(3000, 0, output_channel_count),
        (vec![0, 0, 0, 1000], 1000)
    );
}

#[test]
fn whole_channel_spread_quad() {
    let output_channel_count: u16 = 4;

    assert_eq!(
        simple_panning_channel_volumes(1000, 1000, output_channel_count),
        (vec![1000, 2000, 1000, 0], 2000)
    );
}

#[test]
fn centred_quad_zero_spread() {
    let output_channel_count: u16 = 4;

    assert_eq!(
        simple_panning_channel_volumes(1500, 0, output_channel_count),
        (vec![0, 500, 500, 0], 1000)
    );
}

#[test]
fn centred_quad_whole_spread() {
    let output_channel_count: u16 = 4;

    assert_eq!(
        simple_panning_channel_volumes(1500, 1000, output_channel_count),
        (vec![500, 1500, 1500, 500], 2000)
    );
}

#[test]
fn centred_eight_double_spread() {
    let output_channel_count: u16 = 8;

    assert_eq!(
        simple_panning_channel_volumes(3000, 2000, output_channel_count),
        (vec![0, 1000, 2000, 3000, 2000, 1000, 0, 0], 3000)
    );
}

#[test]
fn negative_position_clamps_to_silence() {
    assert_eq!(simple_panning_channel_volumes(-500, 0, 2), (vec![500, 0], 1000));
    assert_eq!(simple_panning_channel_volumes(-2000, 0, 2), (vec![0, 0], 1000));
}

#[test]
fn no_channels_no_gains() {
    assert_eq!(simple_panning_channel_volumes(0, 0, 0), (vec![], 1000));
}

#[test]
fn gains_never_exceed_denominator() {
    let (gains, denom) = simple_panning_channel_volumes(2500, 3000, 8);
    assert_eq!(gains.len(), 8);
    for g in gains {
        assert!(g <= denom);
    }
}
