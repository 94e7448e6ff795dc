use gif_parser::model::{DecodeError, SubBlocks};
use gif_parser::subblocks::data_subblocks;

#[test]
fn should_parse_data_subblocks() {
    let data = [0];
    assert_eq!(data_subblocks(&data, 0), Ok((SubBlocks(vec![0]), 1)));

    let data = [0, 1, 2, 3];
    assert_eq!(data_subblocks(&data, 0), Ok((SubBlocks(vec![0]), 1)));

    let data = [1, 255, 0];
    assert_eq!(data_subblocks(&data, 0), Ok((SubBlocks(vec![1, 255, 0]), 3)));

    let data = [1, 255, 2, 255, 255, 0];
    assert_eq!(
        data_subblocks(&data, 0),
        Ok((SubBlocks(vec![1, 255, 2, 255, 255, 0]), 6))
    );

    let data = [2, 255, 255, 0, 1, 2, 3];
    assert_eq!(
        data_subblocks(&data, 0),
        Ok((SubBlocks(vec![2, 255, 255, 0]), 4))
    );

    let data = [5, 6];
    assert_eq!(data_subblocks(&data, 0), Err(DecodeError::Truncated));
}

#[test]
fn subblocks_should_be_iterable() {
    let subblocks = SubBlocks(vec![2, 128, 129, 1, 130, 0]);

    let mut result: Vec<u8> = Vec::new();
    let mut it = subblocks.clone().into_iter();
    while let Some(b) = it.next() {
        result.push(b);
    }
    assert_eq!(result, vec![128, 129, 130]);

    let result: Vec<u8> = subblocks.payload();
    assert_eq!(result, vec![128, 129, 130]);
}
