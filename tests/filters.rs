use ambisonic::filter::{AllPass, Delay, FirFilter, FirFilterIterator};

#[test]
fn delay_gives_back_what_went_in_n_pushes_earlier() {
    let mut d: Delay<i16> = Delay::new(3);
    assert_eq!(d.last(), 0);
    assert_eq!(d.push(1), 0);
    assert_eq!(d.push(2), 0);
    assert_eq!(d.push(3), 0);
    assert_eq!(d.push(4), 1);
    assert_eq!(d.last(), 1);
    assert_eq!(d.push(5), 2);
}

#[test]
fn delay_drains_after_input_ends() {
    let mut d: Delay<i16> = Delay::new(2);
    d.push(7);
    d.push(8);
    assert_eq!(d.push_empty(), Some(7));
    assert_eq!(d.push_empty(), Some(8));
    assert_eq!(d.push_empty(), None);
    assert_eq!(d.last(), 0);
}

#[test]
fn all_pass_feeds_back_the_delayed_sample() {
    // forward -1, backward 2, delay of one sample
    let mut ap: AllPass<i16, i16> = AllPass::new(1, -1, 2);
    // d = 0, c = 5 + 0 = 5, out = -5 + 0
    assert_eq!(ap.push(5), -5);
    // d = 5, c = 1 + 10 = 11, out = -11 + 5
    assert_eq!(ap.push(1), -6);
    assert_eq!(ap.last(), -6);
    // d = 11, c = 22, out = -22 + 11
    assert_eq!(ap.push_empty(), Some(-11));
}

#[test]
fn all_pass_saturates() {
    let mut ap: AllPass<i16, i16> = AllPass::new(1, 1, 1);
    ap.push(30000);
    // d = 30000, c = 30000 + 30000 saturates, out = 32767 + 30000 saturates
    assert_eq!(ap.push(30000), i16::MAX);
}

#[test]
fn fir_filter_convolves_newest_with_first_weight() {
    let mut f: FirFilter<i16, i16> = FirFilter::new(vec![1, 10, 100]);
    assert_eq!(f.push(1), 1);
    assert_eq!(f.push(2), 2 + 10);
    assert_eq!(f.push(3), 3 + 20 + 100);
    assert_eq!(f.push(0), 30 + 200);
}

#[test]
fn fir_filter_tail_after_input_ends() {
    let mut f: FirFilter<i16, i16> = FirFilter::new(vec![1, 10, 100]);
    f.push(1);
    f.push(2);
    f.push(3);
    // history without its oldest sample: [3, 2], met by the last two weights
    assert_eq!(f.push_empty(), Some(3 * 10 + 2 * 100));
    assert_eq!(f.push_empty(), Some(3 * 100));
    assert_eq!(f.push_empty(), Some(0));
    assert_eq!(f.push_empty(), None);
}

#[test]
fn fir_filter_without_weights_gives_silence() {
    let mut f: FirFilter<i16, i16> = FirFilter::new(vec![]);
    assert_eq!(f.push(9), 0);
    assert_eq!(f.push(9), 0);
}

#[test]
fn fir_filter_iterator_filters_then_drains() {
    let mut it = FirFilterIterator::new(vec![1i16, 2, 3].into_iter(), vec![1i16, 1]);
    assert_eq!(it.next(), Some(1));
    assert_eq!(it.next(), Some(3));
    assert_eq!(it.next(), Some(5));
    assert_eq!(it.next(), Some(3));
    assert_eq!(it.next(), Some(0));
    assert_eq!(it.next(), None);
}
