use jeprof::histogram::Histogram;
use jeprof::options::{JemallocAllocFunctions, OrderBy};

const ALL: [JemallocAllocFunctions; 6] = [
    JemallocAllocFunctions::Malloc,
    JemallocAllocFunctions::Calloc,
    JemallocAllocFunctions::Realloc,
    JemallocAllocFunctions::Mallocx,
    JemallocAllocFunctions::Rallocx,
    JemallocAllocFunctions::Xallocx,
];

#[test]
fn function_names_parse() {
    let names = ["malloc", "calloc", "realloc", "mallocx", "rallocx", "xallocx"];
    for (name, function) in names.iter().zip(ALL.iter()) {
        assert_eq!(JemallocAllocFunctions::from_str(name).unwrap(), *function);
        assert_eq!(function.name(), *name);
        assert_eq!(JemallocAllocFunctions::from_lowercase(name), Some(*function));
    }
}

#[test]
fn function_names_parse_in_any_case() {
    assert_eq!(JemallocAllocFunctions::from_str("MALLOC").unwrap(), JemallocAllocFunctions::Malloc);
    assert_eq!(
        JemallocAllocFunctions::from_str("RaLlOcX").unwrap(),
        JemallocAllocFunctions::Rallocx
    );
    assert_eq!(JemallocAllocFunctions::from_lowercase("MALLOC"), None);
}

#[test]
fn unknown_function_name_is_refused_with_the_name_as_given() {
    let refused = JemallocAllocFunctions::from_str("Free").unwrap_err();
    assert_eq!(refused.name, "Free");
    assert_eq!(refused.message(), "Invalid function name Free");
    assert!(JemallocAllocFunctions::from_str("").is_err());
    assert!(JemallocAllocFunctions::from_str("malloc ").is_err());
}

#[test]
fn size_argument_is_the_first_for_malloc_and_the_second_otherwise() {
    assert_eq!(JemallocAllocFunctions::Malloc.allocation_arg_index(), 0);
    for function in &ALL[1..] {
        assert_eq!(function.allocation_arg_index(), 1);
    }
}

#[test]
fn order_weighs_by_count_or_by_traffic() {
    let mut hist = Histogram::new();
    hist.increment(100);
    hist.increment(200);
    hist.increment(1 << 35);
    assert_eq!(OrderBy::Count.weight(&hist), 2);
    assert_eq!(OrderBy::Traffic.weight(&hist), 300 + (1u64 << 35));
    assert_eq!(OrderBy::Count.count_name(), "count");
    assert_eq!(OrderBy::Traffic.count_name(), "total allocated");
}
