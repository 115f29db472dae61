use mmo::rle::{decode, encode, runs_fit, Rle, Run};
use mmo::room::TileIndex;

fn runs_of<T: Clone>(rle: &Rle<T>) -> Vec<(T, u32)> {
    rle.runs.iter().map(|r| (r.value.clone(), r.count)).collect()
}

#[test]
fn encode_groups_equal_neighbours() {
    let rle = encode(&[1u8, 1, 2, 2, 2, 3]);
    assert_eq!(runs_of(&rle), vec![(1, 2), (2, 3), (3, 1)]);
}

#[test]
fn encode_empty_gives_no_runs() {
    let rle = encode::<u8>(&[]);
    assert!(rle.runs.is_empty());
    assert!(decode(&rle).is_empty());
}

#[test]
fn encode_single_element() {
    let rle = encode(&[true]);
    assert_eq!(runs_of(&rle), vec![(true, 1)]);
}

#[test]
fn encode_alternating_values() {
    let rle = encode(&[false, true, false, true]);
    assert_eq!(runs_of(&rle), vec![(false, 1), (true, 1), (false, 1), (true, 1)]);
}

#[test]
fn decode_expands_runs() {
    let rle = Rle { runs: vec![Run { value: 'a', count: 3 }, Run { value: 'b', count: 1 }] };
    assert_eq!(decode(&rle), vec!['a', 'a', 'a', 'b']);
}

#[test]
fn decode_of_encode_is_identity() {
    let data = vec![TileIndex(0), TileIndex(0), TileIndex(5), TileIndex(0), TileIndex(7), TileIndex(7)];
    assert_eq!(decode(&encode(&data)), data);
}

#[test]
fn encode_of_decode_of_canonical_is_identity() {
    let rle = Rle { runs: vec![Run { value: 4u16, count: 2 }, Run { value: 9, count: 5 }] };
    let again = encode(&decode(&rle));
    assert_eq!(runs_of(&again), runs_of(&rle));
}

#[test]
fn decode_merges_non_canonical_runs_on_reencode() {
    let rle = Rle { runs: vec![Run { value: 1u8, count: 2 }, Run { value: 1, count: 3 }] };
    let again = encode(&decode(&rle));
    assert_eq!(runs_of(&again), vec![(1, 5)]);
}

#[test]
fn short_runs_fit() {
    assert!(runs_fit::<u8>(&[]));
    assert!(runs_fit(&[1u8, 1, 2, 2, 2, 3]));
    assert!(runs_fit(&[true; 1000]));
}
