use stfs::SparseReader;

#[test]
fn sparse_reader_works() {
    let first = [0u8, 1, 2, 3];
    let second = [4u8];
    let third = [5u8];
    let mappings = [first.as_slice(), second.as_slice(), third.as_slice()];
    let mut reader = SparseReader::new(&mappings);
    let output = reader.read(6);
    assert!(output.len() == 6);

    assert_eq!(vec![0u8, 1, 2, 3, 4, 5], output);
}

#[test]
fn sparse_reader_works_multiple_reads() {
    let first = [0u8, 1, 2, 3];
    let second = [4u8];
    let third = [5u8];
    let mappings = [first.as_slice(), second.as_slice(), third.as_slice()];
    let mut reader = SparseReader::new(&mappings);

    for i in 0..6 {
        let output = reader.read(1);
        println!("{:?}", output);
        println!("{}", i);
        assert!(output.len() == 1);
        assert_eq!(output[0], i);
    }

    let output = reader.read(1);
    assert!(output.len() == 0);
}

#[test]
fn sparse_reader_empty_mappings() {
    let mappings: [&[u8]; 0] = [];
    let mut reader = SparseReader::new(&mappings);
    assert_eq!(reader.read(4), Vec::<u8>::new());
}

#[test]
fn sparse_reader_reads_across_empty_slices() {
    let first = [7u8, 8];
    let second: [u8; 0] = [];
    let third = [9u8];
    let mappings = [first.as_slice(), second.as_slice(), third.as_slice()];
    let mut reader = SparseReader::new(&mappings);
    assert_eq!(reader.read(2), vec![7u8, 8]);
    assert_eq!(reader.read(2), vec![9u8]);
    assert_eq!(reader.read(2), Vec::<u8>::new());
}
