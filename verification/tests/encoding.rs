use circuit_data::config::CircuitConfig;
use circuit_data::fri_params::{FriConfig, FriParams, FriReductionStrategy};
use circuit_data::gates::SelectorsInfo;
use circuit_data::goldilocks::GoldilocksField;
use circuit_data::hash::HashOut;
use circuit_data::target::{LookupWire, Target};
use circuit_data::wire::{Buffer, Codec, IoError, IoResult};

fn bytes<T: Codec>(value: &T) -> Vec<u8> {
    let mut buf = Vec::new();
    value.write(&mut buf);
    buf
}

fn read<T: Codec>(bytes: &[u8]) -> IoResult<T> {
    T::read(&mut Buffer::new(bytes))
}

#[test]
fn integers() {
    assert_eq!(bytes(&0x12u8), [0x12]);
    assert_eq!(bytes(&0x1234u16), [0x34, 0x12]);
    assert_eq!(bytes(&0x12345678u32), [0x78, 0x56, 0x34, 0x12]);
    assert_eq!(
        bytes(&0x0123456789abcdefusize),
        [0xef, 0xcd, 0xab, 0x89, 0x67, 0x45, 0x23, 0x01]
    );
    assert_eq!(read::<u16>(&[0x34, 0x12, 0xff]), Ok(0x1234));
    assert_eq!(read::<u16>(&[0x34]), Err(IoError));
    assert_eq!(read::<u32>(&[1, 0, 0, 0x80]), Ok(0x80000001));
    assert_eq!(read::<usize>(&[0xff; 8]), Ok(usize::MAX));
    assert_eq!(read::<usize>(&[0xff; 7]), Err(IoError));
}

#[test]
fn reading_leaves_what_follows() {
    let input = [7u8, 0, 1, 9];
    let mut buf = Buffer::new(&input);
    assert_eq!(u16::read(&mut buf), Ok(7));
    assert_eq!(bool::read(&mut buf), Ok(true));
    assert_eq!(u8::read(&mut buf), Ok(9));
    assert_eq!(u8::read(&mut buf), Err(IoError));
}

#[test]
fn flags_are_zero_or_one() {
    assert_eq!(bytes(&true), [1]);
    assert_eq!(bytes(&false), [0]);
    assert_eq!(read::<bool>(&[0]), Ok(false));
    assert_eq!(read::<bool>(&[1]), Ok(true));
    assert_eq!(read::<bool>(&[2]), Err(IoError));
    assert_eq!(read::<bool>(&[]), Err(IoError));
}

#[test]
fn lists_and_options() {
    assert_eq!(bytes(&vec![5u16, 6]), [2, 0, 0, 0, 0, 0, 0, 0, 5, 0, 6, 0]);
    assert_eq!(read::<Vec<u16>>(&[2, 0, 0, 0, 0, 0, 0, 0, 5, 0, 6, 0]), Ok(vec![5, 6]));
    assert_eq!(read::<Vec<u16>>(&[3, 0, 0, 0, 0, 0, 0, 0, 5, 0, 6, 0]), Err(IoError));
    assert_eq!(read::<Vec<u8>>(&[0xff; 64]), Err(IoError));
    assert_eq!(bytes(&Some(5u8)), [1, 5]);
    assert_eq!(bytes(&None::<u8>), [0]);
    assert_eq!(read::<Option<u8>>(&[1, 5]), Ok(Some(5)));
    assert_eq!(read::<Option<u8>>(&[0, 5]), Ok(None));
    assert_eq!(read::<Option<u8>>(&[1]), Err(IoError));
}

#[test]
fn targets() {
    let wire = Target::Wire { row: 2, column: 3 };
    assert_eq!(bytes(&wire), [1, 2, 0, 0, 0, 0, 0, 0, 0, 3, 0, 0, 0, 0, 0, 0, 0]);
    assert_eq!(read::<Target>(&bytes(&wire)), Ok(wire));
    let target = Target::VirtualTarget { index: 4 };
    assert_eq!(bytes(&target), [0, 4, 0, 0, 0, 0, 0, 0, 0]);
    assert_eq!(read::<Target>(&bytes(&target)), Ok(target));
    assert_eq!(read::<Target>(&[2, 4, 0, 0, 0, 0, 0, 0, 0]), Err(IoError));
    let rows = LookupWire { last_lu_gate: 3, last_lut_gate: 2, first_lut_gate: 1 };
    let mut expected = vec![0u8; 24];
    expected[0] = 3;
    expected[8] = 2;
    expected[16] = 1;
    assert_eq!(bytes(&rows), expected);
    assert_eq!(read::<LookupWire>(&expected), Ok(rows));
}

#[test]
fn field_elements_and_hashes() {
    assert_eq!(bytes(&GoldilocksField(18446744069414584322)), [1, 0, 0, 0, 0, 0, 0, 0]);
    assert_eq!(
        read::<GoldilocksField>(&18446744069414584320u64.to_le_bytes()),
        Ok(GoldilocksField(18446744069414584320))
    );
    assert_eq!(read::<GoldilocksField>(&18446744069414584321u64.to_le_bytes()), Err(IoError));
    let h = HashOut {
        elements: [
            GoldilocksField(1),
            GoldilocksField(2),
            GoldilocksField(3),
            GoldilocksField(4),
        ],
    };
    assert_eq!(bytes(&h).len(), 32);
    assert_eq!(bytes(&h)[24], 4);
    assert_eq!(read::<HashOut<GoldilocksField>>(&bytes(&h)), Ok(h));
}

#[test]
fn reduction_strategies() {
    let fixed = FriReductionStrategy::Fixed(vec![1]);
    assert_eq!(bytes(&fixed), [0, 1, 0, 0, 0, 0, 0, 0, 0, 1, 0, 0, 0, 0, 0, 0, 0]);
    assert_eq!(read::<FriReductionStrategy>(&bytes(&fixed)), Ok(fixed));
    let constant = FriReductionStrategy::ConstantArityBits(4, 5);
    assert_eq!(bytes(&constant), [1, 4, 0, 0, 0, 0, 0, 0, 0, 5, 0, 0, 0, 0, 0, 0, 0]);
    assert_eq!(read::<FriReductionStrategy>(&bytes(&constant)), Ok(constant));
    for max in [None, Some(6)] {
        let min_size = FriReductionStrategy::MinSize(max);
        assert_eq!(bytes(&min_size)[0], 2);
        assert_eq!(read::<FriReductionStrategy>(&bytes(&min_size)), Ok(min_size));
    }
    assert_eq!(read::<FriReductionStrategy>(&[3; 17]), Err(IoError));
}

#[test]
fn configs_and_selectors() {
    let config = CircuitConfig::standard_recursion_zk_config();
    assert_eq!(bytes(&config).len(), 6 * 8 + 2 + 3 * 8 + 4 + 17);
    assert_eq!(read::<CircuitConfig>(&bytes(&config)), Ok(config.clone()));
    assert_eq!(read::<FriConfig>(&bytes(&config)[50..]), Ok(config.fri_config.clone()));
    let params = FriParams {
        config: config.fri_config,
        hiding: true,
        degree_bits: 12,
        reduction_arity_bits: vec![4, 4],
    };
    assert_eq!(read::<FriParams>(&bytes(&params)), Ok(params));
    let selectors = SelectorsInfo { selector_indices: vec![0, 0, 1], groups: vec![0..2, 2..3] };
    assert_eq!(read::<SelectorsInfo>(&bytes(&selectors)), Ok(selectors));
}
