use bitalloc::bitalloc::BitAlloc;
use simplelog::Config;
use simplelog::LevelFilter;
use simplelog::SimpleLogger;

/// The indices of all slots that read as taken.
fn bit_list(item: &BitAlloc) -> Vec<usize> {
    (0..item.len())
        .filter_map(|n| if item.get_bit(n) { Some(n) } else { None })
        .collect()
}

/// Basic test. Does this work at all?
#[test]
fn test_bitalloc_basics() {
    let _ = SimpleLogger::init(LevelFilter::Info, Config::default()); // log to standard output
    //  Try some basic operations
    let bit_alloc = BitAlloc::new(100000);
    let v0 = bit_alloc.alloc_bit().unwrap();
    assert_eq!(v0, 0);
    let v1 = bit_alloc.alloc_bit().unwrap();
    assert_eq!(v1, 1);
    let v2 = bit_alloc.alloc_bit().unwrap();
    assert_eq!(v2, 2);
    assert_eq!(bit_list(&bit_alloc), [0, 1, 2]);
    bit_alloc.clear_bit(v1).unwrap();
    assert_eq!(bit_list(&bit_alloc), [0, 2]);
    // Allocate 500 multiple words and see if that works.
    for _ in 0..500 {
        let _ = bit_alloc.alloc_bit().unwrap();
    }
    //  Construct expected result.
    let mut vlist: Vec<usize> = [0, 1, 2].to_vec();
    let vlist1: Vec<usize> = (3..502).map(|n: usize| n).collect();
    vlist.extend(vlist1);
    assert_eq!(bit_list(&bit_alloc), vlist);
    //  Do many allocs for performance check.
    for _ in 0..99000 {
        let _ = bit_alloc.alloc_bit().unwrap();
    }
    let efficiency_ratio = bit_alloc.search_count() as f64 / bit_alloc.alloc_count() as f64;
    assert!(efficiency_ratio < 1.1); // for this case, it should be small.
}
