use lucide_icons::integrity::digest_of;
use lucide_icons::pool::{batch_ranges, AssetDescriptor, FetchPool, PoolError, TaskStep};

fn asset(i: usize, content: &str) -> AssetDescriptor {
    AssetDescriptor { logical_path: format!("/icons/i{}.svg", i), integrity_digest: digest_of(content) }
}

fn body(i: usize) -> String {
    format!("<svg>{}</svg>", i)
}

#[test]
fn batches_of_a_large_manifest() {
    assert_eq!(batch_ranges(2500, 1000), vec![(0, 1000), (1000, 2000), (2000, 2500)]);
    assert_eq!(batch_ranges(0, 3), vec![]);
    assert_eq!(batch_ranges(3, 3), vec![(0, 3)]);
}

#[test]
fn pool_opens_three_bounded_batches() {
    let assets: Vec<AssetDescriptor> = (0..2500).map(|i| asset(i, "x")).collect();
    let mut pool = FetchPool::new(assets, 1000).unwrap();
    let mut batches = Vec::new();
    while let Some((s, e)) = pool.next_batch() {
        assert!(e - s <= 1000);
        assert_eq!(pool.next_batch(), None);
        for i in s..e {
            assert_eq!(pool.on_cache_read(i, Some("x".to_string())), Ok(TaskStep::UseCached));
        }
        batches.push((s, e));
    }
    assert_eq!(batches, vec![(0, 1000), (1000, 2000), (2000, 2500)]);
    assert_eq!(pool.results().unwrap().len(), 2500);
}

#[test]
fn cold_cache_fetches_and_stores_each_asset_once() {
    let assets: Vec<AssetDescriptor> = (0..5).map(|i| asset(i, &body(i))).collect();
    let mut pool = FetchPool::new(assets, 2).unwrap();
    let (mut fetches, mut writes) = (0, 0);
    while let Some((s, e)) = pool.next_batch() {
        for i in s..e {
            match pool.on_cache_read(i, None) {
                Ok(TaskStep::Fetch(path)) => {
                    assert_eq!(path, format!("/icons/i{}.svg", i));
                    fetches += 1;
                }
                other => panic!("unexpected {:?}", other),
            }
            match pool.on_fetched(i, body(i)) {
                Ok(TaskStep::Store(path, content)) => {
                    assert_eq!(path, format!("/icons/i{}.svg", i));
                    assert_eq!(content, body(i));
                    writes += 1;
                }
                other => panic!("unexpected {:?}", other),
            }
        }
    }
    assert_eq!((fetches, writes), (5, 5));
    assert_eq!(pool.results().unwrap(), (0..5).map(body).collect::<Vec<_>>());
}

#[test]
fn fresh_cache_entry_is_not_fetched() {
    let mut pool = FetchPool::new(vec![asset(0, "<svg/>")], 4).unwrap();
    assert_eq!(pool.next_batch(), Some((0, 1)));
    assert_eq!(pool.on_cache_read(0, Some("<svg/>".to_string())), Ok(TaskStep::UseCached));
    assert_eq!(pool.on_fetched(0, "other".to_string()), Err(PoolError::UnexpectedEvent(0)));
    assert_eq!(pool.results(), Some(vec!["<svg/>".to_string()]));
}

#[test]
fn stale_cache_entry_is_fetched_and_overwritten() {
    let mut pool = FetchPool::new(vec![asset(0, "<svg>new</svg>")], 4).unwrap();
    pool.next_batch();
    assert_eq!(
        pool.on_cache_read(0, Some("<svg>old</svg>".to_string())),
        Ok(TaskStep::Fetch("/icons/i0.svg".to_string()))
    );
    assert_eq!(
        pool.on_fetched(0, "<svg>new</svg>".to_string()),
        Ok(TaskStep::Store("/icons/i0.svg".to_string(), "<svg>new</svg>".to_string()))
    );
    assert_eq!(pool.results(), Some(vec!["<svg>new</svg>".to_string()]));
}

#[test]
fn results_keep_manifest_order_under_reverse_completion() {
    let assets: Vec<AssetDescriptor> = (0..6).map(|i| asset(i, &body(i))).collect();
    let mut pool = FetchPool::new(assets, 3).unwrap();
    while let Some((s, e)) = pool.next_batch() {
        for i in (s..e).rev() {
            assert!(matches!(pool.on_cache_read(i, None), Ok(TaskStep::Fetch(_))));
        }
        for i in (s..e).rev() {
            assert!(pool.on_fetched(i, body(i)).is_ok());
        }
    }
    assert_eq!(pool.results().unwrap(), (0..6).map(body).collect::<Vec<_>>());
}

#[test]
fn next_batch_waits_for_the_open_one() {
    let assets: Vec<AssetDescriptor> = (0..4).map(|i| asset(i, &body(i))).collect();
    let mut pool = FetchPool::new(assets, 2).unwrap();
    assert_eq!(pool.results(), None);
    assert_eq!(pool.next_batch(), Some((0, 2)));
    assert_eq!(pool.on_cache_read(0, Some(body(0))), Ok(TaskStep::UseCached));
    assert_eq!(pool.next_batch(), None);
    assert_eq!(pool.on_cache_read(2, None), Err(PoolError::UnexpectedEvent(2)));
    assert_eq!(pool.on_cache_read(0, None), Err(PoolError::UnexpectedEvent(0)));
    assert_eq!(pool.on_cache_read(1, Some(body(1))), Ok(TaskStep::UseCached));
    assert_eq!(pool.next_batch(), Some((2, 4)));
    assert_eq!(pool.results(), None);
}

#[test]
fn zero_ceiling_is_refused() {
    assert!(FetchPool::new(vec![], 0).is_none());
    let mut pool = FetchPool::new(vec![], 1).unwrap();
    assert_eq!(pool.next_batch(), None);
    assert_eq!(pool.results(), Some(vec![]));
}
