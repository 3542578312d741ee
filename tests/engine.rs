use rangefetch::merge::MERGE_BUFFER;
use rangefetch::probe::{is_bytes_unit, parse_length};
use rangefetch::{
    block_file_name, check_status, join_outcomes, next_chunk_len, partition, range_header,
    read_metadata, BlockProgress, ByteRange, Config, DownloadError, ResourceMetadata, Session,
    Stage,
};

fn resource(len: usize) -> Vec<u8> {
    (0..len).map(|i| (i * 7 % 251) as u8).collect()
}

/// Cuts `data` into its blocks and appends them back in index order.
fn split_and_merge(data: &[u8], n: usize) -> Vec<u8> {
    let ranges = partition(data.len() as u64, n);
    let blocks: Vec<Vec<u8>> = ranges
        .iter()
        .map(|r| data[r.start as usize..(r.start + r.length) as usize].to_vec())
        .collect();
    let mut out = Vec::new();
    for b in &blocks {
        out.extend_from_slice(b);
    }
    out
}

fn assert_tiles(ranges: &[ByteRange], total: u64) {
    assert_eq!(ranges[0].start, 0);
    for (i, r) in ranges.iter().enumerate() {
        assert_eq!(r.index, i);
        if i + 1 < ranges.len() {
            assert_eq!(r.start + r.length, ranges[i + 1].start);
        }
    }
    let last = ranges[ranges.len() - 1];
    assert_eq!(last.start + last.length, total);
    assert_eq!(ranges.iter().map(|r| r.length).sum::<u64>(), total);
}

#[test]
fn partition_of_100_into_3() {
    let r = partition(100, 3);
    assert_eq!(
        r,
        vec![
            ByteRange { index: 0, start: 0, length: 34 },
            ByteRange { index: 1, start: 34, length: 33 },
            ByteRange { index: 2, start: 67, length: 33 },
        ]
    );
    let data = resource(100);
    let merged = split_and_merge(&data, 3);
    assert_eq!(merged.len(), 100);
    assert_eq!(merged, data);
}

#[test]
fn partition_tiles_for_many_sizes() {
    for total in [0u64, 1, 2, 7, 99, 100, 1023, 1024, 4097] {
        for n in 1usize..=9 {
            let r = partition(total, n);
            assert_eq!(r.len(), n);
            assert_tiles(&r, total);
        }
    }
}

#[test]
fn partition_single_block_spans_everything() {
    assert_eq!(partition(5000, 1), vec![ByteRange { index: 0, start: 0, length: 5000 }]);
}

#[test]
fn partition_of_empty_resource() {
    let r = partition(0, 4);
    assert_eq!(r.len(), 4);
    assert!(r.iter().all(|b| b.start == 0 && b.length == 0));
}

#[test]
fn partition_more_blocks_than_bytes() {
    let r = partition(2, 3);
    assert_eq!(r[0], ByteRange { index: 0, start: 0, length: 2 });
    assert_eq!(r[1], ByteRange { index: 1, start: 2, length: 0 });
    assert_eq!(r[2], ByteRange { index: 2, start: 2, length: 0 });
}

#[test]
fn partition_of_largest_length() {
    let r = partition(u64::MAX, 2);
    assert_eq!(r[0], ByteRange { index: 0, start: 0, length: u64::MAX / 2 + 1 });
    assert_eq!(r[1], ByteRange { index: 1, start: u64::MAX / 2 + 1, length: u64::MAX / 2 });
}

#[test]
fn merge_round_trip_any_block_count() {
    let data = resource(3001);
    for n in 1usize..=12 {
        assert_eq!(split_and_merge(&data, n), data);
    }
}

#[test]
fn one_block_and_many_blocks_agree() {
    let data = resource(777);
    assert_eq!(split_and_merge(&data, 1), split_and_merge(&data, 5));
}

#[test]
fn range_header_has_inclusive_bounds() {
    let r = ByteRange { index: 1, start: 34, length: 33 };
    assert_eq!(range_header(&r), Some(b"bytes=34-66".to_vec()));
    let r = ByteRange { index: 0, start: 0, length: 34 };
    assert_eq!(range_header(&r), Some(b"bytes=0-33".to_vec()));
    let r = ByteRange { index: 0, start: 0, length: 1 };
    assert_eq!(range_header(&r), Some(b"bytes=0-0".to_vec()));
}

#[test]
fn range_header_skips_empty_block() {
    let r = ByteRange { index: 2, start: 2, length: 0 };
    assert_eq!(range_header(&r), None);
}

#[test]
fn block_file_names_are_indices() {
    assert_eq!(block_file_name(0), b"0".to_vec());
    assert_eq!(block_file_name(7), b"7".to_vec());
    assert_eq!(block_file_name(10), b"10".to_vec());
    assert_eq!(block_file_name(4096), b"4096".to_vec());
}

#[test]
fn status_success_range() {
    assert_eq!(check_status(200), Ok(()));
    assert_eq!(check_status(206), Ok(()));
    assert_eq!(check_status(299), Ok(()));
    assert_eq!(check_status(199), Err(DownloadError::TransferError));
    assert_eq!(check_status(301), Err(DownloadError::TransferError));
    assert_eq!(check_status(404), Err(DownloadError::TransferError));
    assert_eq!(check_status(500), Err(DownloadError::TransferError));
}

#[test]
fn block_progress_counts_chunks() {
    let mut p = BlockProgress::new(ByteRange { index: 0, start: 0, length: 10 });
    assert_eq!(p.received, 0);
    assert_eq!(p.record(4), 4);
    assert_eq!(p.finish(), Err(DownloadError::TransferError));
    assert_eq!(p.record(6), 10);
    assert_eq!(p.finish(), Ok(()));
    assert_eq!(p.record(1), 11);
    assert_eq!(p.finish(), Err(DownloadError::TransferError));
}

#[test]
fn block_progress_saturates() {
    let mut p = BlockProgress::new(ByteRange { index: 0, start: 0, length: 1 });
    p.received = u64::MAX - 1;
    assert_eq!(p.record(5), u64::MAX);
}

#[test]
fn join_reports_first_failure_in_block_order() {
    assert_eq!(join_outcomes(&vec![Ok(()), Ok(()), Ok(())]), Ok(()));
    assert_eq!(join_outcomes(&vec![]), Ok(()));
    let outcomes = vec![Ok(()), Err(DownloadError::TransferError), Err(DownloadError::MergeIOError)];
    assert_eq!(join_outcomes(&outcomes), Err(DownloadError::TransferError));
    let outcomes = vec![Ok(()), Err(DownloadError::MergeIOError), Err(DownloadError::TransferError)];
    assert_eq!(join_outcomes(&outcomes), Err(DownloadError::MergeIOError));
}

#[test]
fn next_chunk_takes_remainder_first() {
    assert_eq!(MERGE_BUFFER, 1024);
    assert_eq!(next_chunk_len(2500, 0), 452);
    assert_eq!(next_chunk_len(2500, 452), 1024);
    assert_eq!(next_chunk_len(2500, 1476), 1024);
    assert_eq!(next_chunk_len(2500, 2500), 0);
    assert_eq!(next_chunk_len(2048, 0), 1024);
    assert_eq!(next_chunk_len(0, 0), 0);
    assert_eq!(next_chunk_len(5, 0), 5);
}

#[test]
fn next_chunk_copies_whole_block() {
    for size in [0u64, 1, 1023, 1024, 1025, 5000] {
        let mut copied = 0u64;
        let mut steps = 0;
        loop {
            let n = next_chunk_len(size, copied);
            if n == 0 {
                break;
            }
            copied += n;
            steps += 1;
        }
        assert_eq!(copied, size);
        assert_eq!(steps, (size + 1023) / 1024);
    }
}

#[test]
fn parse_length_values() {
    assert_eq!(parse_length(&b"100".to_vec()), Some(100));
    assert_eq!(parse_length(&b"0".to_vec()), Some(0));
    assert_eq!(parse_length(&b"+42".to_vec()), Some(42));
    assert_eq!(parse_length(&b"18446744073709551615".to_vec()), Some(u64::MAX));
    assert_eq!(parse_length(&b"18446744073709551616".to_vec()), None);
    assert_eq!(parse_length(&b"".to_vec()), None);
    assert_eq!(parse_length(&b"+".to_vec()), None);
    assert_eq!(parse_length(&b"-1".to_vec()), None);
    assert_eq!(parse_length(&b"12a".to_vec()), None);
    assert_eq!(parse_length(&b" 12".to_vec()), None);
}

#[test]
fn bytes_unit_exact() {
    assert!(is_bytes_unit(&b"bytes".to_vec()));
    assert!(!is_bytes_unit(&b"none".to_vec()));
    assert!(!is_bytes_unit(&b"Bytes".to_vec()));
    assert!(!is_bytes_unit(&b"bytes ".to_vec()));
}

#[test]
fn metadata_accepted() {
    assert_eq!(
        read_metadata(Some(b"100".to_vec()), Some(b"bytes".to_vec())),
        Ok(ResourceMetadata { total_length: 100, accepts_ranges: true })
    );
}

#[test]
fn metadata_missing_length() {
    assert_eq!(read_metadata(None, Some(b"bytes".to_vec())), Err(DownloadError::MissingLength));
    assert_eq!(
        read_metadata(Some(b"lots".to_vec()), Some(b"bytes".to_vec())),
        Err(DownloadError::MissingLength)
    );
    assert_eq!(read_metadata(None, None), Err(DownloadError::MissingLength));
}

#[test]
fn metadata_range_unsupported() {
    assert_eq!(read_metadata(Some(b"100".to_vec()), None), Err(DownloadError::RangeUnsupported));
    assert_eq!(
        read_metadata(Some(b"100".to_vec()), Some(b"none".to_vec())),
        Err(DownloadError::RangeUnsupported)
    );
}

#[test]
fn config_refuses_existing_destination() {
    let r = Config::get(4, "http://example.com/f".to_string(), "out.bin".to_string(), true);
    assert_eq!(r.err(), Some(DownloadError::DestinationExists));
}

#[test]
fn config_refuses_zero_blocks() {
    let r = Config::get(0, "http://example.com/f".to_string(), "out.bin".to_string(), false);
    assert_eq!(r.err(), Some(DownloadError::InvalidConcurrency));
}

#[test]
fn config_gets_fresh_scratch_name() {
    let a = Config::get(4, "http://example.com/f".to_string(), "out.bin".to_string(), false)
        .ok()
        .unwrap();
    assert_eq!(a.size, 4);
    assert_eq!(a.uri, "http://example.com/f");
    assert_eq!(a.file_path, "out.bin");
    let name: Vec<char> = a.temp_dir_name.chars().collect();
    assert_eq!(name.len(), 36);
    for (i, c) in name.iter().enumerate() {
        if [8, 13, 18, 23].contains(&i) {
            assert_eq!(*c, '-');
        } else {
            assert!(c.is_ascii_hexdigit() && !c.is_ascii_uppercase());
        }
    }
    let b = Config::get(4, "http://example.com/f".to_string(), "out.bin".to_string(), false)
        .ok()
        .unwrap();
    assert_ne!(a.temp_dir_name, b.temp_dir_name);
}

fn session(n: usize) -> Session {
    let c = Config::get(n, "http://example.com/f".to_string(), "out.bin".to_string(), false)
        .ok()
        .unwrap();
    Session::new(&c)
}

#[test]
fn session_successful_run() {
    let mut s = session(3);
    assert_eq!(s.stage, Stage::Probing);
    let ranges = s.on_probe(Some(b"100".to_vec()), Some(b"bytes".to_vec())).unwrap();
    assert_eq!(s.stage, Stage::Downloading);
    assert_eq!(s.total_length, 100);
    assert_eq!(ranges, partition(100, 3));
    assert_eq!(s.on_blocks_joined(&vec![Ok(()), Ok(()), Ok(())]), Ok(()));
    assert_eq!(s.stage, Stage::Merging);
    assert_eq!(s.on_merged(true), Ok(()));
    assert_eq!(s.stage, Stage::Cleaning);
    assert_eq!(s.on_cleaned(true), Ok(()));
    assert_eq!(s.stage, Stage::Done);
}

#[test]
fn session_probe_failures() {
    let mut s = session(2);
    assert_eq!(s.on_probe(None, Some(b"bytes".to_vec())), Err(DownloadError::MissingLength));
    assert_eq!(s.stage, Stage::Failed);
    let mut s = session(2);
    assert_eq!(
        s.on_probe(Some(b"10".to_vec()), Some(b"none".to_vec())),
        Err(DownloadError::RangeUnsupported)
    );
    assert_eq!(s.stage, Stage::Failed);
}

#[test]
fn session_failed_block_stops_before_merge() {
    let mut s = session(3);
    s.on_probe(Some(b"100".to_vec()), Some(b"bytes".to_vec())).unwrap();
    let outcomes = vec![Ok(()), Err(DownloadError::TransferError), Ok(())];
    assert_eq!(s.on_blocks_joined(&outcomes), Err(DownloadError::TransferError));
    assert_eq!(s.stage, Stage::Failed);
}

#[test]
fn session_missing_outcome_is_transfer_error() {
    let mut s = session(3);
    s.on_probe(Some(b"100".to_vec()), Some(b"bytes".to_vec())).unwrap();
    assert_eq!(s.on_blocks_joined(&vec![Ok(()), Ok(())]), Err(DownloadError::TransferError));
    assert_eq!(s.stage, Stage::Failed);
}

#[test]
fn session_merge_and_cleanup_failures() {
    let mut s = session(1);
    s.on_probe(Some(b"0".to_vec()), Some(b"bytes".to_vec())).unwrap();
    s.on_blocks_joined(&vec![Ok(())]).unwrap();
    assert_eq!(s.on_merged(false), Err(DownloadError::MergeIOError));
    assert_eq!(s.stage, Stage::Failed);
    let mut s = session(1);
    s.on_probe(Some(b"0".to_vec()), Some(b"bytes".to_vec())).unwrap();
    s.on_blocks_joined(&vec![Ok(())]).unwrap();
    s.on_merged(true).unwrap();
    assert_eq!(s.on_cleaned(false), Err(DownloadError::MergeIOError));
    assert_eq!(s.stage, Stage::Failed);
}

#[test]
fn error_messages_are_distinct() {
    let all = [
        DownloadError::DestinationExists,
        DownloadError::InvalidConcurrency,
        DownloadError::MissingLength,
        DownloadError::RangeUnsupported,
        DownloadError::TransferError,
        DownloadError::MergeIOError,
    ];
    for (i, a) in all.iter().enumerate() {
        for b in &all[i + 1..] {
            assert_ne!(a.message(), b.message());
        }
    }
}
