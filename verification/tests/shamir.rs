use lamport_signature_plus::shamir::{combine_cells, gather_share, split_cells};
use lamport_signature_plus::MultiVec;
use rand::rngs::StdRng;
use rand::SeedableRng;

fn matrix(cells: Vec<u8>) -> MultiVec<u8, 2> {
    MultiVec::fill_fn([1, cells.len()], |i| cells[i])
}

#[test]
fn shares_of_every_secret_stand_side_by_side() {
    let mut rng = StdRng::from_seed([3u8; 32]);
    let secrets = [0x53u8, 0x00, 0xff, 0x10];
    let flat = split_cells(&secrets, 2, 3, &mut rng).unwrap();
    assert_eq!(flat.len(), 12);
    let first = gather_share(&flat, 0, 3, 4);
    let second = gather_share(&flat, 1, 3, 4);
    let third = gather_share(&flat, 2, 3, 4);
    assert_eq!(first, vec![flat[0], flat[3], flat[6], flat[9]]);
    assert_eq!(second, vec![flat[1], flat[4], flat[7], flat[10]]);
    assert_eq!(third, vec![flat[2], flat[5], flat[8], flat[11]]);

    let (a, b, c) = (matrix(first), matrix(second), matrix(third));
    assert_eq!(combine_cells(&[1, 2], &vec![&a, &b], 4).unwrap(), secrets.to_vec());
    assert_eq!(combine_cells(&[3, 1], &vec![&c, &a], 4).unwrap(), secrets.to_vec());
    assert_eq!(combine_cells(&[2, 3, 1], &vec![&b, &c, &a], 4).unwrap(), secrets.to_vec());
    assert_ne!(combine_cells(&[2, 1], &vec![&a, &b], 4).unwrap(), secrets.to_vec());
}

#[test]
fn a_line_is_its_value_at_zero_plus_its_slope() {
    let mut rng = StdRng::from_seed([3u8; 32]);
    let flat = split_cells(&[0x53u8], 2, 2, &mut rng).unwrap();
    // Over GF(256) the share at 1 is the secret plus the slope, and the share
    // at 2 is the secret plus twice the slope.
    let slope = flat[0] ^ 0x53;
    let doubled = (slope << 1) ^ (if slope & 0x80 != 0 { 0x1b } else { 0 });
    assert_eq!(flat[1], 0x53 ^ doubled);
    assert_ne!(slope, 0);
}

#[test]
fn split_cells_refuses_as_the_sharing_layer_does() {
    let mut rng = StdRng::from_seed([3u8; 32]);
    assert_eq!(split_cells(&[1u8], 1, 3, &mut rng), Err(vsss_rs::Error::SharingMinThreshold));
    assert_eq!(
        split_cells(&[1u8], 4, 3, &mut rng),
        Err(vsss_rs::Error::SharingLimitLessThanThreshold)
    );
    assert_eq!(
        split_cells(&[1u8], 1, 0, &mut rng),
        Err(vsss_rs::Error::SharingLimitLessThanThreshold)
    );
    assert_eq!(split_cells(&[1u8], 0, 0, &mut rng), Err(vsss_rs::Error::SharingMinThreshold));
}

#[test]
fn combine_cells_refuses_as_the_sharing_layer_does() {
    let a = matrix(vec![1, 2]);
    let b = matrix(vec![3, 4]);
    assert_eq!(
        combine_cells(&[1], &vec![&a], 2),
        Err(vsss_rs::Error::SharingMinThreshold)
    );
    assert_eq!(combine_cells(&[], &vec![], 2), Err(vsss_rs::Error::SharingMinThreshold));
    assert_eq!(
        combine_cells(&[0, 1], &vec![&a, &b], 2),
        Err(vsss_rs::Error::SharingInvalidIdentifier)
    );
    assert_eq!(
        combine_cells(&[1, 0], &vec![&a, &b], 2),
        Err(vsss_rs::Error::SharingInvalidIdentifier)
    );
    assert_eq!(
        combine_cells(&[0, 0], &vec![&a, &b], 2),
        Err(vsss_rs::Error::SharingInvalidIdentifier)
    );
    assert_eq!(
        combine_cells(&[7, 7], &vec![&a, &b], 2),
        Err(vsss_rs::Error::SharingDuplicateIdentifier)
    );
    assert!(combine_cells(&[7, 8], &vec![&a, &b], 2).is_ok());
}

#[test]
fn no_secret_gives_no_share_and_the_same_refusals() {
    let mut rng = StdRng::from_seed([3u8; 32]);
    assert_eq!(split_cells(&[], 2, 3, &mut rng), Ok(vec![]));
    assert_eq!(split_cells(&[], 3, 3, &mut rng), Ok(vec![]));
    assert_eq!(split_cells(&[], 1, 3, &mut rng), Err(vsss_rs::Error::SharingMinThreshold));
    assert_eq!(split_cells(&[], 0, 0, &mut rng), Err(vsss_rs::Error::SharingMinThreshold));
    assert_eq!(
        split_cells(&[], 4, 3, &mut rng),
        Err(vsss_rs::Error::SharingLimitLessThanThreshold)
    );
    assert_eq!(
        split_cells(&[], 1, 0, &mut rng),
        Err(vsss_rs::Error::SharingLimitLessThanThreshold)
    );
}

#[test]
fn no_position_gives_no_secret_and_the_same_refusals() {
    let a = matrix(vec![]);
    let b = matrix(vec![]);
    assert_eq!(combine_cells(&[1, 2], &vec![&a, &b], 0), Ok(vec![]));
    assert_eq!(combine_cells(&[9, 3], &vec![&a, &b], 0), Ok(vec![]));
    assert_eq!(
        combine_cells(&[1], &vec![&a], 0),
        Err(vsss_rs::Error::SharingMinThreshold)
    );
    assert_eq!(combine_cells(&[], &vec![], 0), Err(vsss_rs::Error::SharingMinThreshold));
    assert_eq!(
        combine_cells(&[0, 2], &vec![&a, &b], 0),
        Err(vsss_rs::Error::SharingInvalidIdentifier)
    );
    assert_eq!(
        combine_cells(&[2, 2], &vec![&a, &b], 0),
        Err(vsss_rs::Error::SharingDuplicateIdentifier)
    );
}
