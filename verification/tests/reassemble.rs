use oxide::into_intervals;
use oxide::reassemble::{
    parse_worker_id, reassemble, storage_key, worker_slots, Artifact, ReassemblyError,
};

fn resource(size: usize) -> Vec<u8> {
    (0..size).map(|i| (i % 256) as u8).collect()
}

fn fetch_all(resource: &[u8], worker_count: u64) -> Vec<Artifact> {
    into_intervals(resource.len() as u64, worker_count)
        .into_iter()
        .enumerate()
        .map(|(i, (start, end))| Artifact {
            worker_id: (i + 1) as u16,
            bytes: resource[start as usize..(end + 1) as usize].to_vec(),
        })
        .collect()
}

#[test]
fn hundred_bytes_from_four_workers() {
    let content = resource(100);
    let artifacts = fetch_all(&content, 4);
    let sizes: Vec<usize> = artifacts.iter().map(|a| a.bytes.len()).collect();
    assert_eq!(sizes, vec![25, 25, 25, 25]);
    assert_eq!(reassemble(&artifacts), Ok(content));
}

#[test]
fn artifacts_are_joined_by_id_not_by_position() {
    let content = resource(100);
    let mut artifacts = fetch_all(&content, 4);
    artifacts.reverse();
    artifacts.swap(0, 2);
    assert_eq!(reassemble(&artifacts), Ok(content));
}

#[test]
fn any_partition_reassembles() {
    for size in [1usize, 2, 3, 7, 64, 255, 256, 257, 1000] {
        let content = resource(size);
        for worker_count in 1..=(size as u64 + 1).min(12) {
            let mut artifacts = fetch_all(&content, worker_count);
            artifacts.reverse();
            assert_eq!(reassemble(&artifacts), Ok(content.clone()));
        }
    }
}

#[test]
fn single_artifact_is_the_resource() {
    let content = resource(300);
    let artifacts = fetch_all(&content, 1);
    assert_eq!(artifacts[0].bytes, content);
    assert_eq!(reassemble(&artifacts), Ok(content));
}

#[test]
fn no_artifacts_join_to_nothing() {
    assert_eq!(reassemble(&Vec::new()), Ok(Vec::new()));
}

#[test]
fn missing_artifact_is_named() {
    let artifacts = vec![
        Artifact { worker_id: 1, bytes: vec![1] },
        Artifact { worker_id: 4, bytes: vec![4] },
        Artifact { worker_id: 3, bytes: vec![3] },
    ];
    assert_eq!(
        reassemble(&artifacts),
        Err(ReassemblyError::MissingArtifact { worker_id: 2 })
    );
}

#[test]
fn doubled_artifact_leaves_another_missing() {
    let artifacts = vec![
        Artifact { worker_id: 1, bytes: vec![1] },
        Artifact { worker_id: 1, bytes: vec![9] },
        Artifact { worker_id: 2, bytes: vec![2] },
    ];
    assert_eq!(
        reassemble(&artifacts),
        Err(ReassemblyError::MissingArtifact { worker_id: 3 })
    );
}

#[test]
fn artifact_without_worker_leaves_one_missing() {
    let artifacts = vec![Artifact { worker_id: 0, bytes: vec![1] }];
    assert_eq!(
        reassemble(&artifacts),
        Err(ReassemblyError::MissingArtifact { worker_id: 1 })
    );
}

#[test]
fn more_artifacts_than_ids_are_refused() {
    let artifacts: Vec<Artifact> = (0..65536u32)
        .map(|i| Artifact { worker_id: (i % 65536) as u16, bytes: Vec::new() })
        .collect();
    assert_eq!(reassemble(&artifacts), Err(ReassemblyError::TooManyArtifacts));
}

#[test]
fn slots_tell_where_each_worker_is_kept() {
    let artifacts = vec![
        Artifact { worker_id: 2, bytes: vec![2] },
        Artifact { worker_id: 1, bytes: vec![1] },
        Artifact { worker_id: 2, bytes: vec![3] },
    ];
    assert_eq!(worker_slots(&artifacts), vec![1, 0, 3]);
    assert_eq!(worker_slots(&Vec::new()), Vec::<usize>::new());
    let strays = vec![
        Artifact { worker_id: 0, bytes: Vec::new() },
        Artifact { worker_id: 9, bytes: Vec::new() },
    ];
    assert_eq!(worker_slots(&strays), vec![2, 2]);
}

#[test]
fn many_artifacts_are_joined_quickly() {
    let count = 65535u32;
    let artifacts: Vec<Artifact> = (0..count)
        .rev()
        .map(|i| Artifact { worker_id: (i + 1) as u16, bytes: vec![(i % 251) as u8] })
        .collect();
    let expected: Vec<u8> = (0..count).map(|i| (i % 251) as u8).collect();
    assert_eq!(reassemble(&artifacts), Ok(expected));
}

#[test]
fn storage_key_is_the_id_in_decimal() {
    assert_eq!(storage_key(1), "1");
    assert_eq!(storage_key(12), "12");
    assert_eq!(storage_key(65535), "65535");
}

#[test]
fn storage_key_reads_back() {
    for worker_id in [1u16, 2, 9, 10, 255, 256, 65535] {
        assert_eq!(parse_worker_id(&storage_key(worker_id)), Some(worker_id));
    }
}

#[test]
fn foreign_keys_name_no_worker() {
    assert_eq!(parse_worker_id("0"), None);
    assert_eq!(parse_worker_id("65536"), None);
    assert_eq!(parse_worker_id(""), None);
    assert_eq!(parse_worker_id("1.part"), None);
    assert_eq!(parse_worker_id(".DS_Store"), None);
    assert_eq!(parse_worker_id("-1"), None);
}

#[test]
fn stored_artifact_takes_the_id_of_its_key() {
    assert_eq!(
        Artifact::from_stored("3", vec![1, 2]),
        Some(Artifact { worker_id: 3, bytes: vec![1, 2] })
    );
    assert_eq!(Artifact::from_stored("three", vec![1, 2]), None);
}

#[test]
fn stored_artifacts_reassemble() {
    let content = resource(1000);
    let mut stored: Vec<(String, Vec<u8>)> = fetch_all(&content, 12)
        .into_iter()
        .map(|a| (storage_key(a.worker_id), a.bytes))
        .collect();
    stored.sort();
    let artifacts: Vec<Artifact> = stored
        .into_iter()
        .map(|(key, bytes)| Artifact::from_stored(&key, bytes).unwrap())
        .collect();
    assert_eq!(artifacts[1].worker_id, 10);
    assert_eq!(reassemble(&artifacts), Ok(content));
}

#[test]
fn reassembly_errors_name_stage_and_worker() {
    assert_eq!(
        ReassemblyError::MissingArtifact { worker_id: 12 }.describe(),
        "reassembly: no artifact of worker 12"
    );
    assert_eq!(
        ReassemblyError::TooManyArtifacts.describe(),
        "reassembly: more artifacts than worker ids"
    );
}
