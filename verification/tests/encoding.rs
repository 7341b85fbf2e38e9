use trollup_sequencer::encoding::DecStrError;
use trollup_sequencer::uint::{U256, U512};

#[test]
fn big_endian_bytes_put_the_most_significant_first() {
    let n = U256 { l0: 0x0807060504030201, l1: 0, l2: 0, l3: 0xa1a2a3a4a5a6a7a8 };
    let bytes = n.to_big_endian();
    assert_eq!(&bytes[..8], &[0xa1, 0xa2, 0xa3, 0xa4, 0xa5, 0xa6, 0xa7, 0xa8]);
    assert_eq!(&bytes[8..24], &[0u8; 16]);
    assert_eq!(&bytes[24..], &[8, 7, 6, 5, 4, 3, 2, 1]);
}

#[test]
fn little_endian_bytes_put_the_least_significant_first() {
    let n = U256 { l0: 0x0807060504030201, l1: 0, l2: 0, l3: 0xa1a2a3a4a5a6a7a8 };
    let bytes = n.to_little_endian();
    assert_eq!(&bytes[..8], &[1, 2, 3, 4, 5, 6, 7, 8]);
    assert_eq!(&bytes[8..24], &[0u8; 16]);
    assert_eq!(&bytes[24..], &[0xa8, 0xa7, 0xa6, 0xa5, 0xa4, 0xa3, 0xa2, 0xa1]);
}

#[test]
fn wide_little_endian_bytes_cover_all_eight_limbs() {
    let n = U512 { l0: 1, l1: 2, l2: 3, l3: 4, l4: 5, l5: 6, l6: 7, l7: 0x0100000000000008 };
    let bytes = n.to_little_endian();
    for limb in 0..8 {
        assert_eq!(bytes[8 * limb], limb as u8 + 1);
    }
    assert_eq!(bytes[63], 1);
    assert_eq!(bytes.iter().filter(|b| **b != 0).count(), 9);
}

#[test]
fn from_big_endian_reads_short_and_full_strings() {
    assert_eq!(U256::from_big_endian(&[]), Some(U256::zero()));
    assert_eq!(U256::from_big_endian(&[1, 0]), Some(U256::from_u64(256)));
    assert_eq!(
        U256::from_big_endian(&[1, 0, 0, 0, 0, 0, 0, 0, 2]),
        Some(U256 { l0: 2, l1: 1, l2: 0, l3: 0 })
    );
    let full = [0xffu8; 32];
    assert_eq!(
        U256::from_big_endian(&full),
        Some(U256 { l0: u64::MAX, l1: u64::MAX, l2: u64::MAX, l3: u64::MAX })
    );
}

#[test]
fn from_big_endian_refuses_more_than_32_bytes() {
    assert_eq!(U256::from_big_endian(&[0u8; 33]), None);
}

#[test]
fn big_endian_round_trip() {
    let n = U256 { l0: 11, l1: 22, l2: 33, l3: 44 };
    assert_eq!(U256::from_big_endian(&n.to_big_endian()), Some(n));
}

#[test]
fn from_dec_str_reads_decimal_numbers() {
    assert_eq!(U256::from_dec_str(""), Ok(U256::zero()));
    assert_eq!(U256::from_dec_str("0"), Ok(U256::zero()));
    assert_eq!(U256::from_dec_str("007"), Ok(U256::from_u64(7)));
    assert_eq!(
        U256::from_dec_str("18446744073709551616"),
        Ok(U256 { l0: 0, l1: 1, l2: 0, l3: 0 })
    );
    assert_eq!(
        U256::from_dec_str(
            "115792089237316195423570985008687907853269984665640564039457584007913129639935"
        ),
        Ok(U256 { l0: u64::MAX, l1: u64::MAX, l2: u64::MAX, l3: u64::MAX })
    );
}

#[test]
fn from_dec_str_reports_the_first_fault() {
    assert_eq!(U256::from_dec_str("12a"), Err(DecStrError::InvalidCharacter));
    assert_eq!(U256::from_dec_str("-1"), Err(DecStrError::InvalidCharacter));
    assert_eq!(U256::from_dec_str("1_0"), Err(DecStrError::InvalidCharacter));
    assert_eq!(U256::from_dec_str("1\u{e9}"), Err(DecStrError::InvalidCharacter));
    assert_eq!(
        U256::from_dec_str(
            "115792089237316195423570985008687907853269984665640564039457584007913129639936"
        ),
        Err(DecStrError::InvalidLength)
    );
    assert_eq!(
        U256::from_dec_str(
            "115792089237316195423570985008687907853269984665640564039457584007913129639936x"
        ),
        Err(DecStrError::InvalidLength)
    );
    assert_eq!(
        U256::from_dec_str(
            "11579208923731619542357098500868790785326998466564056403945758400791312963993x6"
        ),
        Err(DecStrError::InvalidCharacter)
    );
}

#[test]
fn wide_from_dec_str_reads_512_bits() {
    assert_eq!(
        U512::from_dec_str(
            "115792089237316195423570985008687907853269984665640564039457584007913129639936"
        ),
        Ok(U512 { l0: 0, l1: 0, l2: 0, l3: 0, l4: 1, l5: 0, l6: 0, l7: 0 })
    );
    assert_eq!(
        U512::from_dec_str("13407807929942597099574024998205846127479365820592393377723561443721764030073546976801874298166903427690031858186486050853753882811946569946433649006084095"),
        Ok(U512 {
            l0: u64::MAX,
            l1: u64::MAX,
            l2: u64::MAX,
            l3: u64::MAX,
            l4: u64::MAX,
            l5: u64::MAX,
            l6: u64::MAX,
            l7: u64::MAX
        })
    );
    assert_eq!(
        U512::from_dec_str("13407807929942597099574024998205846127479365820592393377723561443721764030073546976801874298166903427690031858186486050853753882811946569946433649006084096"),
        Err(DecStrError::InvalidLength)
    );
    assert_eq!(U512::from_dec_str("x"), Err(DecStrError::InvalidCharacter));
}
