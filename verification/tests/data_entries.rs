use cmdstan::data_entries::{DataCollection, DataEntries, DataEntry};
use cmdstan::fixed::Fixed;
use cmdstan::StanData;

fn setup() -> (DataCollection, DataEntries) {
    let mut dc = DataCollection::new();
    let names: Vec<&str> = vec!["N", "y"];
    dc.add_entries(&names, vec![DataEntry::Int(1), DataEntry::Int(2)])
        .unwrap();
    let mut dd = DataEntries::new();
    dd.add_entry("N", DataEntry::Int(1));
    dd.add_entry("y", DataEntry::Int(2));
    (dc, dd)
}

#[test]
fn base_test() {
    let mut x = DataEntries::new();
    x.add_entry("N", DataEntry::Int(5));
    x.add_entry(
        "vec",
        DataEntry::Array(vec![
            DataEntry::Int(2),
            DataEntry::Int(3),
            DataEntry::Int(2),
            DataEntry::Int(4),
            DataEntry::Int(2),
        ]),
    );
    assert_eq!(
        x.write_as_stan_data(),
        "{\n    \"N\": 5,\n    \"vec\": [2, 3, 2, 4, 2]\n}"
    );
}

#[test]
fn nested_array() {
    let mut x = DataEntries::new();
    x.add_entry("N", DataEntry::Int(2));
    x.add_entry("M", DataEntry::Int(2));
    x.add_entry(
        "vec",
        DataEntry::Array(vec![
            DataEntry::Array(vec![DataEntry::Int(1), DataEntry::Int(2)]),
            DataEntry::Array(vec![DataEntry::Int(3), DataEntry::Int(4)]),
        ]),
    );
    assert_eq!(
        x.write_as_stan_data(),
        "{\n    \"N\": 2,\n    \"M\": 2,\n    \"vec\": [[1, 2], [3, 4]]\n}"
    );
}

#[test]
fn nested_empty_array() {
    let mut x = DataEntries::new();
    x.add_entry("N", DataEntry::Int(0));
    x.add_entry("M", DataEntry::Int(0));
    x.add_entry("vec", DataEntry::Array(vec![DataEntry::Array(vec![])]));
    assert_eq!(
        x.write_as_stan_data(),
        "{\n    \"N\": 0,\n    \"M\": 0,\n    \"vec\": []\n}"
    );
}

#[test]
fn test_tuple() {
    let mut x = DataEntries::new();
    x.add_entry("N", DataEntry::Int(2));
    x.add_entry(
        "vec",
        DataEntry::Array(vec![
            DataEntry::Tuple(vec![DataEntry::Int(1), DataEntry::Int(2)]),
            DataEntry::Tuple(vec![DataEntry::Int(3), DataEntry::Int(4)]),
        ]),
    );
    assert_eq!(
        x.write_as_stan_data(),
        "{\n    \"N\": 2,\n    \"vec\": [{\"1\": 1, \"2\": 2}, {\"1\": 3, \"2\": 4}]\n}"
    );
}

#[test]
fn test_complex() {
    let c1 = num::Complex::new(1, 2);
    let c2 = num::Complex::new(3, 4);
    let mut x = DataEntries::new();
    x.add_entry("N", DataEntry::Int(2));
    x.add_entry(
        "vec",
        DataEntry::Array(vec![
            DataEntry::create_from_complex(
                Fixed::from_int(c1.re as i64),
                Fixed::from_int(c1.im as i64),
            ),
            DataEntry::create_from_complex(
                Fixed::from_int(c2.re as i64),
                Fixed::from_int(c2.im as i64),
            ),
        ]),
    );
    assert_eq!(
        x.write_as_stan_data(),
        "{\n    \"N\": 2,\n    \"vec\": [[1, 2], [3, 4]]\n}"
    );
}

#[test]
fn test_tup_dat() {
    let datx = ("N", DataEntry::Int(3));
    assert_eq!(datx.write_as_stan_data(), "{\n    \"N\": 3\n}");
}

#[test]
fn test_multi_tup_dat() {
    let datvec = (
        'N',
        "vec",
        vec![DataEntry::Int(1), DataEntry::Int(2), DataEntry::Int(3)],
    );
    assert_eq!(
        datvec.write_as_stan_data(),
        "{\n    \"N\": 3,\n    \"vec\": [1, 2, 3]\n}"
    );
}

#[test]
fn test_add_entries() {
    let (dc, dd) = setup();
    assert_eq!(dc.entires.write_as_stan_data(), dd.write_as_stan_data());
}

#[test]
fn test_get_entry() {
    let (dc, _) = setup();
    assert_eq!(*dc.get_entry("N").unwrap(), DataEntry::Int(1));
    assert_eq!(*dc.get_entry("y").unwrap(), DataEntry::Int(2));
    assert_eq!(dc.get_entry("vec"), None);
}

#[test]
fn test_get_mut_entry() {
    let (mut dc, _) = setup();
    *dc.get_entry_mut("N").unwrap() = DataEntry::Int(3);
    assert_eq!(*dc.get_entry("N").unwrap(), DataEntry::Int(3));
    assert!(dc.get_entry_mut("vec").is_none());
}

#[test]
fn test_set_entry() {
    let (mut dc, _) = setup();
    assert!(dc.set_entry("y", DataEntry::Int(9)));
    assert_eq!(*dc.get_entry("y").unwrap(), DataEntry::Int(9));
    assert!(!dc.set_entry("vec", DataEntry::Int(9)));
}

#[test]
fn test_open_array() {
    let (dc, mut dd) = setup();
    let mut dc = dc.open_array("vec");
    dc.add_item(DataEntry::Int(1));
    dc.add_item(DataEntry::Int(3));
    dc.add_item(DataEntry::Int(2));
    let dc = dc.close_array();
    dd.add_entry(
        "vec",
        DataEntry::Array(vec![DataEntry::Int(1), DataEntry::Int(3), DataEntry::Int(2)]),
    );
    assert_eq!(dc.entires.write_as_stan_data(), dd.write_as_stan_data());
}

#[test]
fn test_add_entry_from_func() {
    let (mut dc, mut dd) = setup();
    dc.add_entry_from_func("var", 3, || DataEntry::Int(1));
    dd.add_entry(
        "var",
        DataEntry::Array(vec![DataEntry::Int(1), DataEntry::Int(1), DataEntry::Int(1)]),
    );
    assert_eq!(dc.entires.write_as_stan_data(), dd.write_as_stan_data());
}

#[test]
fn test_add_entries_from_func() {
    let (mut dc, mut dd) = setup();
    let names: Vec<&str> = vec!["var1", "var2", "var3"];
    dc.add_entries_from_func(&names, 3, || {
        vec![DataEntry::Int(1), DataEntry::Int(2), DataEntry::Int(3)]
    })
    .unwrap();
    dd.add_entry(
        "var1",
        DataEntry::Array(vec![DataEntry::Int(1), DataEntry::Int(1), DataEntry::Int(1)]),
    );
    dd.add_entry(
        "var2",
        DataEntry::Array(vec![DataEntry::Int(2), DataEntry::Int(2), DataEntry::Int(2)]),
    );
    dd.add_entry(
        "var3",
        DataEntry::Array(vec![DataEntry::Int(3), DataEntry::Int(3), DataEntry::Int(3)]),
    );
    assert_eq!(dc.entires.write_as_stan_data(), dd.write_as_stan_data());
}

#[test]
#[should_panic]
fn test_add_entries_from_func_panic() {
    let (mut dc, _) = setup();
    let names: Vec<&str> = vec!["var1", "var2", "var3"];
    dc.add_entries_from_func(&names, 3, || {
        vec![
            DataEntry::Int(1),
            DataEntry::Int(2),
            DataEntry::Int(3),
            DataEntry::Int(4),
        ]
    })
    .unwrap();
}

#[test]
fn real_and_upsert_rendering() {
    let mut x = DataEntries::new();
    x.add_entry("eps", DataEntry::Real(Fixed::from_parts(false, 25, 3)));
    assert_eq!(x.write_as_stan_data(), "{\n    \"eps\": 0.025\n}");
    x.upsert_entry("eps", DataEntry::Real(Fixed::from_int(-2)));
    assert_eq!(x.write_as_stan_data(), "{\n    \"eps\": -2\n}");
    x.upsert_entry("n", DataEntry::Int(7));
    assert_eq!(x.write_as_stan_data(), "{\n    \"eps\": -2,\n    \"n\": 7\n}");
}

#[test]
fn add_entries_length_mismatch() {
    let mut dc = DataCollection::new();
    let names: Vec<&str> = vec!["a", "b"];
    let r = dc.add_entries(&names, vec![DataEntry::Int(1)]);
    assert!(r.is_err());
    assert_eq!(dc.entires.datas.len(), 0);
}
