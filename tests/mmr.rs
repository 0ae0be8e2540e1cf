use twenty_first::mmr_accumulator::{digest_of_u128, hash_pair, Digest, MembershipProof, MmrAccumulator};
use twenty_first::mmr_shared::{
    data_index_to_node_index, get_peak_heights_and_peak_node_indices, leaf_count_to_node_count,
    leaf_index_to_mountain, parent, right_child_and_height,
};

fn digests(values: &[u128]) -> Vec<Digest> {
    values.iter().map(|x| digest_of_u128(*x)).collect()
}

#[test]
fn node_index_arithmetic() {
    assert_eq!(1, data_index_to_node_index(0));
    assert_eq!(2, data_index_to_node_index(1));
    assert_eq!(4, data_index_to_node_index(2));
    assert_eq!(5, data_index_to_node_index(3));
    assert_eq!(8, data_index_to_node_index(4));
    assert_eq!((false, 0), right_child_and_height(1));
    assert_eq!((true, 0), right_child_and_height(2));
    assert_eq!((false, 1), right_child_and_height(3));
    assert_eq!((false, 0), right_child_and_height(4));
    assert_eq!((true, 1), right_child_and_height(6));
    assert_eq!((false, 2), right_child_and_height(7));
    assert_eq!(3, parent(1));
    assert_eq!(3, parent(2));
    assert_eq!(7, parent(3));
    assert_eq!(6, parent(4));
    assert_eq!(7, parent(6));
    assert_eq!(0, leaf_count_to_node_count(0));
    assert_eq!(4, leaf_count_to_node_count(3));
    assert_eq!(11, leaf_count_to_node_count(7));
    let (heights, nodes) = get_peak_heights_and_peak_node_indices(7);
    assert_eq!(vec![2, 1, 0], heights);
    assert_eq!(vec![7, 10, 11], nodes);
    assert_eq!((2, 0), leaf_index_to_mountain(3, 7));
    assert_eq!((1, 1), leaf_index_to_mountain(5, 7));
    assert_eq!((0, 2), leaf_index_to_mountain(6, 7));
}

#[test]
fn append_sequence_matches_direct_construction() {
    let leaves = digests(&[14, 15, 16]);
    let mut acc = MmrAccumulator::new(vec![]);
    assert!(acc.is_empty());
    for leaf in leaves.iter() {
        let mp = acc.append(*leaf).unwrap();
        assert!(mp.verify(leaf, &acc.get_peaks(), acc.count_leaves()));
    }
    let direct = vec![hash_pair(&leaves[0], &leaves[1]), leaves[2]];
    assert_eq!(direct, acc.get_peaks());
    let built = MmrAccumulator::new(leaves.clone());
    assert_eq!(built.get_peaks(), acc.get_peaks());
    assert_eq!(built.bag_peaks(), acc.bag_peaks());
    assert!(!acc.is_empty());
    assert_eq!(3, acc.count_leaves());
    let bagged = hash_pair(&digest_of_u128(4), &hash_pair(&direct[1], &direct[0]));
    assert_eq!(bagged, acc.bag_peaks());
    let init = MmrAccumulator::init(direct.clone(), 3);
    assert_eq!(init.get_peaks(), acc.get_peaks());
}

#[test]
fn membership_proofs_of_appends_verify() {
    let leaves = digests(&(0..9).collect::<Vec<u128>>());
    let mut acc = MmrAccumulator::new(vec![]);
    for leaf in leaves.iter() {
        let mp = acc.append(*leaf).unwrap();
        assert!(mp.verify(leaf, &acc.get_peaks(), acc.count_leaves()));
        let wrong = digest_of_u128(1000);
        assert!(!mp.verify(&wrong, &acc.get_peaks(), acc.count_leaves()));
    }
}

#[test]
fn verify_batch_update_single_append_test() {
    let leaf_hashes_start = digests(&[14, 15, 16]);
    let appended_leaf = digest_of_u128(17);
    let leaf_hashes_end = digests(&[14, 15, 16, 17]);
    let accumulator_mmr_start = MmrAccumulator::new(leaf_hashes_start);
    let accumulator_mmr_end = MmrAccumulator::new(leaf_hashes_end);
    assert!(accumulator_mmr_start.verify_batch_update(
        &accumulator_mmr_end.get_peaks(),
        &[appended_leaf],
        &[]
    ));
}

/// The membership proof of leaf `i` of a four-leaf accumulator.
fn proof_in_four(leaves: &[Digest], i: u128) -> MembershipProof {
    let left = hash_pair(&leaves[0], &leaves[1]);
    let right = hash_pair(&leaves[2], &leaves[3]);
    let path = match i {
        0 => vec![leaves[1], right],
        1 => vec![leaves[0], right],
        2 => vec![leaves[3], left],
        _ => vec![leaves[2], left],
    };
    MembershipProof { data_index: i, authentication_path: path }
}

#[test]
fn verify_batch_update_single_mutate_test() {
    let leaf_hashes_start = digests(&[14, 15, 16, 18]);
    let new_leaf_value = digest_of_u128(17);
    let leaf_hashes_end = digests(&[14, 15, 16, 17]);
    let accumulator_mmr_start = MmrAccumulator::new(leaf_hashes_start.clone());
    let membership_proof = proof_in_four(&leaf_hashes_start, 3);
    assert!(membership_proof.verify(
        &leaf_hashes_start[3],
        &accumulator_mmr_start.get_peaks(),
        4
    ));
    let accumulator_mmr_end = MmrAccumulator::new(leaf_hashes_end);
    assert!(accumulator_mmr_start.verify_batch_update(
        &accumulator_mmr_end.get_peaks(),
        &[],
        &[(new_leaf_value, membership_proof.clone())]
    ));

    // Repeated indices are refused.
    assert!(!accumulator_mmr_start.verify_batch_update(
        &accumulator_mmr_end.get_peaks(),
        &[],
        &[
            (new_leaf_value, membership_proof.clone()),
            (new_leaf_value, membership_proof.clone())
        ]
    ));
}

#[test]
fn verify_batch_update_two_append_test() {
    let leaf_hashes_start = digests(&[14, 15, 16]);
    let appended_leafs = digests(&[25, 29]);
    let leaf_hashes_end = digests(&[14, 15, 16, 25, 29]);
    let accumulator_mmr_start = MmrAccumulator::new(leaf_hashes_start);
    let accumulator_mmr_end = MmrAccumulator::new(leaf_hashes_end);
    assert!(accumulator_mmr_start.verify_batch_update(
        &accumulator_mmr_end.get_peaks(),
        &appended_leafs,
        &[]
    ));
}

#[test]
fn verify_batch_update_two_mutate_test() {
    let leaf_hashes_start = digests(&[14, 15, 16, 17]);
    let new_leafs = digests(&[20, 21]);
    let leaf_hashes_end = digests(&[14, 20, 16, 21]);
    let accumulator_mmr_start = MmrAccumulator::new(leaf_hashes_start.clone());
    let membership_proof1 = proof_in_four(&leaf_hashes_start, 1);
    let membership_proof3 = proof_in_four(&leaf_hashes_start, 3);
    let accumulator_mmr_end = MmrAccumulator::new(leaf_hashes_end);
    assert!(accumulator_mmr_start.verify_batch_update(
        &accumulator_mmr_end.get_peaks(),
        &[],
        &[(new_leafs[0], membership_proof1), (new_leafs[1], membership_proof3)]
    ));
}

#[test]
fn verify_batch_update_refusals() {
    let start = MmrAccumulator::new(digests(&[14, 15, 16, 17]));
    let end = MmrAccumulator::new(digests(&[14, 15, 16, 17, 18]));
    // Wrong claimed peaks.
    assert!(!start.verify_batch_update(&start.get_peaks(), &digests(&[18]), &[]));
    // A mutation index past the leaf count.
    let out_of_range = MembershipProof { data_index: 4, authentication_path: vec![] };
    assert!(!start.verify_batch_update(
        &end.get_peaks(),
        &[],
        &[(digest_of_u128(1), out_of_range)]
    ));
}

#[test]
fn mutations_with_and_without_batching_agree() {
    let leaves = digests(&[14, 15, 16, 17]);
    let new_leafs = digests(&[20, 21]);
    let mut one_by_one = MmrAccumulator::new(leaves.clone());
    let proof1 = proof_in_four(&leaves, 1);
    let proof3 = proof_in_four(&leaves, 3);
    one_by_one.mutate_leaf(&proof1, &new_leafs[0]);
    let mut updated = vec![proof3.clone()];
    MembershipProof::batch_update_from_leaf_mutation(&mut updated, &proof1, &new_leafs[0]);
    one_by_one.mutate_leaf(&updated[0], &new_leafs[1]);

    let mut batched = MmrAccumulator::new(leaves.clone());
    let mut proofs = vec![proof_in_four(&leaves, 0), proof_in_four(&leaves, 2)];
    let changed = batched.batch_mutate_leaf_and_update_mps(
        &mut proofs,
        vec![(proof1, new_leafs[0]), (proof3, new_leafs[1])],
    );
    assert_eq!(one_by_one.get_peaks(), batched.get_peaks());
    let direct = MmrAccumulator::new(digests(&[14, 20, 16, 21]));
    assert_eq!(direct.get_peaks(), batched.get_peaks());
    assert_eq!(vec![0u128, 1], changed);
    let end_leaves = digests(&[14, 20, 16, 21]);
    assert!(proofs[0].verify(&end_leaves[0], &batched.get_peaks(), 4));
    assert!(proofs[1].verify(&end_leaves[2], &batched.get_peaks(), 4));
}

/// The membership proof of leaf `i`, computed from all the leaves.
fn prove(leaves: &[Digest], i: usize) -> MembershipProof {
    let n = leaves.len();
    let mut offset = 0usize;
    for bit in (0..usize::BITS).rev() {
        let size = 1usize << bit;
        if n & size == 0 {
            continue;
        }
        if i < offset + size {
            let mut layer: Vec<Digest> = leaves[offset..offset + size].to_vec();
            let mut idx = i - offset;
            let mut path = vec![];
            while layer.len() > 1 {
                path.push(layer[idx ^ 1]);
                layer = layer.chunks(2).map(|c| hash_pair(&c[0], &c[1])).collect();
                idx /= 2;
            }
            return MembershipProof { data_index: i as u128, authentication_path: path };
        }
        offset += size;
    }
    panic!("leaf index {} is not below the leaf count {}", i, n);
}

fn random_leaves(count: usize) -> Vec<Digest> {
    let mut rng = rand::thread_rng();
    (0..count).map(|_| digest_of_u128(rand::Rng::gen::<u128>(&mut rng))).collect()
}

#[test]
fn every_leaf_proves_after_appends() {
    let leaves = random_leaves(33);
    let mut acc = MmrAccumulator::new(vec![]);
    for (n, leaf) in leaves.iter().enumerate() {
        acc.append(*leaf).unwrap();
        let count = (n + 1) as u128;
        for i in 0..=n {
            let mp = prove(&leaves[..=n], i);
            assert!(mp.verify(&leaves[i], &acc.get_peaks(), count));
        }
    }
}

#[test]
fn verify_batch_update_random_test() {
    let mut rng = rand::thread_rng();
    for _ in 0..10 {
        let leaves = random_leaves(20);
        let start = MmrAccumulator::new(leaves.clone());
        let mut indices: Vec<usize> = vec![];
        while indices.len() < 5 {
            let i = rand::Rng::gen_range(&mut rng, 0..20);
            if !indices.contains(&i) {
                indices.push(i);
            }
        }
        let new_values = random_leaves(5);
        let appends = random_leaves(3);
        let mut end_leaves = leaves.clone();
        let mut mutations = vec![];
        for (k, i) in indices.iter().enumerate() {
            end_leaves[*i] = new_values[k];
            mutations.push((new_values[k], prove(&leaves, *i)));
        }
        end_leaves.extend(appends.iter().cloned());
        let end = MmrAccumulator::new(end_leaves);
        assert!(start.verify_batch_update(&end.get_peaks(), &appends, &mutations));

        let mut repeated = mutations.clone();
        repeated.push(mutations[0].clone());
        assert!(!start.verify_batch_update(&end.get_peaks(), &appends, &repeated));

        // Batched mutation agrees with the direct construction and with one-by-one
        // mutation.
        let mut batched = start.clone();
        let mut none: Vec<MembershipProof> = vec![];
        batched.batch_mutate_leaf_and_update_mps(
            &mut none,
            mutations.iter().map(|(d, mp)| (mp.clone(), *d)).collect(),
        );
        let mut mutated_leaves = leaves.clone();
        for (k, i) in indices.iter().enumerate() {
            mutated_leaves[*i] = new_values[k];
        }
        let direct = MmrAccumulator::new(mutated_leaves.clone());
        assert_eq!(direct.get_peaks(), batched.get_peaks());

        let mut one_by_one = start.clone();
        let mut current = leaves.clone();
        for (k, i) in indices.iter().enumerate() {
            one_by_one.mutate_leaf(&prove(&current, *i), &new_values[k]);
            current[*i] = new_values[k];
        }
        assert_eq!(direct.get_peaks(), one_by_one.get_peaks());
    }
}

#[test]
fn batch_mutation_updates_supplied_proofs() {
    let leaves = random_leaves(13);
    let mut acc = MmrAccumulator::new(leaves.clone());
    let mut proofs: Vec<MembershipProof> = (0..13).map(|i| prove(&leaves, i)).collect();
    let new_values = random_leaves(2);
    let mutations = vec![(prove(&leaves, 2), new_values[0]), (prove(&leaves, 9), new_values[1])];
    acc.batch_mutate_leaf_and_update_mps(&mut proofs, mutations);
    let mut end_leaves = leaves.clone();
    end_leaves[2] = new_values[0];
    end_leaves[9] = new_values[1];
    for i in 0..13 {
        assert!(proofs[i].verify(&end_leaves[i], &acc.get_peaks(), 13));
    }
}

#[test]
fn batch_mutate_leaf_and_update_mps_test() {
    let mut prng = rand::thread_rng();
    for mmr_leaf_count in 1..100u128 {
        let initial_leaf_digests: Vec<Digest> =
            (4000u128..4000u128 + mmr_leaf_count).map(digest_of_u128).collect();
        let mut mmra = MmrAccumulator::new(initial_leaf_digests.clone());

        let mutated_leaf_count = rand::Rng::gen_range(&mut prng, 0..mmr_leaf_count);
        let all_indices: Vec<u128> = (0..mmr_leaf_count).collect();

        // Pick indices for leaves that are being mutated
        let mut all_indices_mut0 = all_indices.clone();
        let mut mutated_leaf_indices: Vec<u128> = vec![];
        for _ in 0..mutated_leaf_count {
            let k = rand::RngCore::next_u32(&mut prng) as usize % all_indices_mut0.len();
            mutated_leaf_indices.push(all_indices_mut0.remove(k));
        }

        // Pick membership proofs that we want to update
        let membership_proof_count = rand::Rng::gen_range(&mut prng, 0..mmr_leaf_count);
        let mut all_indices_mut1 = all_indices.clone();
        let mut membership_proof_indices: Vec<u128> = vec![];
        for _ in 0..membership_proof_count {
            let k = rand::RngCore::next_u32(&mut prng) as usize % all_indices_mut1.len();
            membership_proof_indices.push(all_indices_mut1.remove(k));
        }

        // The leaves as they look after the batch mutation
        let new_leafs: Vec<Digest> = (6u128..6 + mutated_leaf_count).map(digest_of_u128).collect();
        let mut terminal_leafs: Vec<Digest> = initial_leaf_digests.clone();
        for (i, new_leaf) in mutated_leaf_indices.iter().zip(new_leafs.iter()) {
            terminal_leafs[*i as usize] = *new_leaf;
        }

        let mutation_data: Vec<(MembershipProof, Digest)> = mutated_leaf_indices
            .iter()
            .map(|i| prove(&initial_leaf_digests, *i as usize))
            .zip(new_leafs.into_iter())
            .collect();
        assert_eq!(mutated_leaf_count as usize, mutation_data.len());

        let mut mmra_mps: Vec<MembershipProof> = membership_proof_indices
            .iter()
            .map(|i| prove(&initial_leaf_digests, *i as usize))
            .collect();
        let peaks_before = mmra.get_peaks();
        mmra.batch_mutate_leaf_and_update_mps(&mut mmra_mps, mutation_data);

        // The peaks are those of the mutated leaf list
        assert_eq!(MmrAccumulator::new(terminal_leafs.clone()).get_peaks(), mmra.get_peaks());
        assert!(
            mutated_leaf_count == 0 || peaks_before != mmra.get_peaks(),
            "If mutated leaf count is non-zero, at least on peaks must be different"
        );

        // The updated proofs are those of the mutated leaf list, and they verify
        assert_eq!(membership_proof_count as usize, mmra_mps.len());
        for (mp, i) in mmra_mps.iter().zip(membership_proof_indices.iter()) {
            let fresh = prove(&terminal_leafs, *i as usize);
            assert_eq!(fresh.data_index, mp.data_index);
            assert_eq!(fresh.authentication_path, mp.authentication_path);
            assert!(mp.verify(&terminal_leafs[*i as usize], &mmra.get_peaks(), mmra.count_leaves()));
        }
    }
}

#[test]
fn verify_batch_update_pbt() {
    let mut prng = rand::thread_rng();
    for start_size in 1..35u128 {
        let leaf_hashes_start: Vec<Digest> = (4000u128..4000u128 + start_size).map(digest_of_u128).collect();
        let bad_digests: Vec<Digest> = (12u128..12u128 + start_size).map(digest_of_u128).collect();
        let bad_membership_proof = prove(&bad_digests, 0);
        let bad_membership_proof_digest = bad_digests[0];
        let bad_leaf: Digest = digest_of_u128(8765432165123u128);
        let accumulator_mmr = MmrAccumulator::new(leaf_hashes_start.clone());
        for append_size in 0..18u128 {
            let appends: Vec<Digest> = (2000u128..2000u128 + append_size).map(digest_of_u128).collect();
            let mutate_count = std::cmp::min(12, start_size);
            for mutate_size in 0..mutate_count {
                let new_leaf_values: Vec<Digest> = (13u128..13u128 + mutate_size).map(digest_of_u128).collect();
                let mut mutated_indices: Vec<u128> = (0..mutate_size)
                    .map(|_| rand::Rng::gen_range(&mut prng, 0..start_size))
                    .collect();

                // Indices must be unique: a batch cannot update a leaf twice
                mutated_indices.sort();
                mutated_indices.dedup();

                let mut leaf_hashes_mutated = leaf_hashes_start.clone();
                for (index, new_leaf) in mutated_indices.iter().zip(new_leaf_values.iter()) {
                    leaf_hashes_mutated[*index as usize] = *new_leaf;
                }
                for appended_digest in appends.iter() {
                    leaf_hashes_mutated.push(*appended_digest);
                }
                let expected_new_peaks = MmrAccumulator::new(leaf_hashes_mutated).get_peaks();

                let membership_proofs: Vec<MembershipProof> = mutated_indices
                    .iter()
                    .map(|&i| prove(&leaf_hashes_start, i as usize))
                    .collect();
                let mut leaf_mutations: Vec<(Digest, MembershipProof)> =
                    new_leaf_values.clone().into_iter().zip(membership_proofs.into_iter()).collect();
                assert!(accumulator_mmr.verify_batch_update(&expected_new_peaks, &appends, &leaf_mutations));

                // Negative tests
                let mut bad_appends = appends.clone();
                if append_size > 0 && mutate_size > 0 {
                    bad_appends[(mutated_indices[0] % append_size) as usize] = bad_leaf;
                    assert!(!accumulator_mmr.verify_batch_update(&expected_new_peaks, &bad_appends, &leaf_mutations));

                    let k = mutated_indices[0] as usize % mutated_indices.len();
                    leaf_mutations[k].0 = bad_membership_proof_digest;
                    assert!(!accumulator_mmr.verify_batch_update(&expected_new_peaks, &appends, &leaf_mutations));
                    leaf_mutations[k].1 = bad_membership_proof.clone();
                    assert!(!accumulator_mmr.verify_batch_update(&expected_new_peaks, &appends, &leaf_mutations));
                }
            }
        }
    }
}
