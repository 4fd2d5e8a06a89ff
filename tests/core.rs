use ecosim::avoid::{BadBrainHashes, BrainSearch, SearchAction, MAX_BRAIN_RETRIES};
use ecosim::hash::{rolling_hash_bytes, simple_hash_str};
use ecosim::model::{input_size, layer_sizes, parse_brain_mode, BrainMode, Diet};
use ecosim::population::{
    actions_mask, feelings_mask, is_restless, litter_size, next_age, next_stagnant_ticks,
    select_indices, split_by_death, ACTION_DRINKING, ACTION_RESTING, FEELING_RESTLESS,
};
use ecosim::rng::RngLCG;
use ecosim::text::{creature_id, to_radix_text};

#[test]
fn rng_zero_seed_is_remapped() {
    let r = RngLCG::new(0);
    assert_eq!(r.state, 0xDEADBEEF);
    let r = RngLCG::new(7);
    assert_eq!(r.state, 7);
}

#[test]
fn rng_follows_lcg_recurrence() {
    let mut r = RngLCG::new(1);
    assert_eq!(r.next_u32(), 1015568748);
    assert_eq!(r.next_u32(), 1586005467);
    assert_eq!(r.state, 1586005467);
}

#[test]
fn rng_same_seed_same_stream() {
    let mut a = RngLCG::new(42);
    let mut b = RngLCG::new(42);
    for _ in 0..1000 {
        assert_eq!(a.next_u32(), b.next_u32());
    }
    let mut c = RngLCG::new(43);
    let mut d = RngLCG::new(42);
    assert_ne!(c.next_u32(), d.next_u32());
}

#[test]
fn rng_wraps_modulo_2_32() {
    let mut r = RngLCG::new(u32::MAX);
    let expect = (u32::MAX as u64 * 1664525 + 1013904223) % (1u64 << 32);
    assert_eq!(r.next_u32() as u64, expect);
}

#[test]
fn rolling_hash_values() {
    assert_eq!(rolling_hash_bytes(b""), 0);
    assert_eq!(rolling_hash_bytes(b"a"), 97);
    assert_eq!(rolling_hash_bytes(b"ab"), 97 * 31 + 98);
    // wraps: large inputs stay within 32 bits as a wrapped product
    let long = [0xffu8; 64];
    let mut h: u32 = 0;
    for b in long.iter() {
        h = h.wrapping_mul(31).wrapping_add(*b as u32);
    }
    assert_eq!(rolling_hash_bytes(&long), h);
}

#[test]
fn hash_text_of_strings() {
    assert_eq!(simple_hash_str(""), "0");
    // 97 = 2 * 36 + 25
    assert_eq!(simple_hash_str("a"), "2p");
    // 97 * 31 + 98 = 3105 = 2 * 1296 + 14 * 36 + 9
    assert_eq!(simple_hash_str("ab"), "2e9");
    // the rolling hash of "hello" is 99162322
    assert_eq!(simple_hash_str("hello"), to_radix_text(99162322, 36));
}

#[test]
fn hash_of_negative_signed_value_is_unsigned() {
    // A string whose hash overflows i32 renders its unsigned value.
    let s = "the quick brown fox jumps over the lazy dog";
    let mut h: i32 = 0;
    for &b in s.as_bytes() {
        h = (h << 5).wrapping_sub(h).wrapping_add(b as i32);
    }
    assert!(h < 0);
    assert_eq!(simple_hash_str(s), to_radix_text(h as u32 as u64, 36));
}

#[test]
fn radix_text_values() {
    assert_eq!(to_radix_text(0, 36), "0");
    assert_eq!(to_radix_text(35, 36), "z");
    assert_eq!(to_radix_text(36, 36), "10");
    assert_eq!(to_radix_text(u32::MAX as u64, 36), "1z141z3");
    assert_eq!(to_radix_text(1234567, 10), "1234567");
    assert_eq!(to_radix_text(5, 2), "101");
}

#[test]
fn creature_ids() {
    assert_eq!(creature_id(0), "c0");
    assert_eq!(creature_id(49), "c49");
    assert_eq!(creature_id(u64::MAX), "c18446744073709551615");
}

#[test]
fn brain_modes_parse_ignoring_ascii_case() {
    assert_eq!(parse_brain_mode("Zegion"), BrainMode::Zegion);
    assert_eq!(parse_brain_mode("ZEGION"), BrainMode::Zegion);
    assert_eq!(parse_brain_mode("zegion"), BrainMode::Zegion);
    assert_eq!(parse_brain_mode("OG"), BrainMode::OG);
    assert_eq!(parse_brain_mode("Zegio"), BrainMode::OG);
    assert_eq!(parse_brain_mode("Zegions"), BrainMode::OG);
    assert_eq!(parse_brain_mode(""), BrainMode::OG);
    assert_eq!(parse_brain_mode("Zégion"), BrainMode::OG);
}

#[test]
fn topology_layer_sizes() {
    assert_eq!(layer_sizes(BrainMode::OG), vec![14, 8, 8]);
    assert_eq!(layer_sizes(BrainMode::Zegion), vec![24, 16, 6]);
    assert_eq!(input_size(BrainMode::OG), 14);
    assert_eq!(input_size(BrainMode::Zegion), 24);
    assert_ne!(Diet::Herbivore, Diet::Carnivore);
}

#[test]
fn avoidance_set_membership() {
    let set = BadBrainHashes::from_list(vec!["abc".to_string(), "xyz".to_string(), "abc".to_string()]);
    assert_eq!(set.len(), 2);
    assert!(set.contains(&"abc".to_string()));
    assert!(set.contains(&"xyz".to_string()));
    assert!(!set.contains(&"ab".to_string()));
    let empty = BadBrainHashes::new();
    assert_eq!(empty.len(), 0);
    assert!(!BrainSearch::new().needs_check(&empty));
}

#[test]
fn avoidance_verdicts() {
    let set = BadBrainHashes::from_list(vec!["bad".to_string()]);
    let mut search = BrainSearch::new();
    assert!(search.needs_check(&set));
    assert_eq!(search.on_candidate_hash(&set, &"good".to_string()), SearchAction::Accept);
    assert_eq!(search.retries(), 0);
    assert_eq!(search.on_candidate_hash(&set, &"bad".to_string()), SearchAction::Retry);
    assert_eq!(search.retries(), 1);
    assert_eq!(search.on_candidate_hash(&set, &"bad".to_string()), SearchAction::Retry);
    assert_eq!(search.on_candidate_hash(&set, &"good".to_string()), SearchAction::Accept);
    assert_eq!(search.retries(), 2);
}

/// A degenerate generator whose every candidate hashes into the avoided set:
/// the search re-initializes exactly sixteen times, then accepts.
#[test]
fn avoidance_all_bad_stops_after_sixteen_retries() {
    let h = simple_hash_str("[0,0,0]");
    let set = BadBrainHashes::from_list(vec![h.clone()]);
    let mut search = BrainSearch::new();
    let mut candidates: u32 = 1;
    while search.needs_check(&set) {
        match search.on_candidate_hash(&set, &h) {
            SearchAction::Accept => break,
            SearchAction::Retry => candidates += 1,
        }
    }
    assert_eq!(search.retries(), MAX_BRAIN_RETRIES);
    assert_eq!(search.retries(), 16);
    assert_eq!(candidates, 17);
    // Once the budget is spent, even an avoided hash is accepted.
    assert!(!search.needs_check(&set));
    assert_eq!(search.on_candidate_hash(&set, &h), SearchAction::Accept);
    assert_eq!(search.retries(), 16);
}

#[test]
fn death_split_in_population_order() {
    let dead = vec![false, true, true, false, true];
    let (alive, removed) = split_by_death(&dead);
    assert_eq!(alive, vec![0, 3]);
    assert_eq!(removed, vec![1, 2, 4]);
    assert_eq!(alive.len() + removed.len(), dead.len());
    let (alive, removed) = split_by_death(&vec![]);
    assert!(alive.is_empty() && removed.is_empty());
    assert_eq!(select_indices(&vec![true, true], true), vec![0, 1]);
}

#[test]
fn telemetry_masks() {
    assert_eq!(actions_mask(false, false, false, false, false), 0);
    assert_eq!(actions_mask(true, false, false, false, true), ACTION_RESTING | ACTION_DRINKING);
    assert_eq!(actions_mask(true, true, true, true, true), 31);
    assert_eq!(feelings_mask(true, false, true, false), 5);
    assert_eq!(feelings_mask(false, false, false, true), FEELING_RESTLESS);
}

#[test]
fn counters_saturate_and_reset() {
    assert_eq!(next_stagnant_ticks(5, true), 6);
    assert_eq!(next_stagnant_ticks(5, false), 0);
    assert_eq!(next_stagnant_ticks(u32::MAX, true), u32::MAX);
    assert!(is_restless(600, 600));
    assert!(!is_restless(599, 600));
    assert_eq!(next_age(0), 1);
    assert_eq!(next_age(u32::MAX), u32::MAX);
    assert_eq!(litter_size(0), 1);
    assert_eq!(litter_size(3), 3);
}
