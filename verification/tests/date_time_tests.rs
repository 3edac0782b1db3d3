use ruzito::date_time::ZipDateTime;

#[test]
fn test_date() {
    let date = ZipDateTime::from_addr(0x5162, 0x0);
    assert_eq!(date.day, 2);
    assert_eq!(date.month, 11);
    assert_eq!(date.year, 2020);
}

#[test]
fn test_time() {
    let time = ZipDateTime::from_addr(0x0, 0xA9F4);

    assert_eq!(time.hour, 21);
    assert_eq!(time.minute, 15);
    assert_eq!(time.second, 40);
    println!("{:?}", time);
}

#[test]
fn test_to_addr() {
    let time = ZipDateTime::new(1, 3, 2021, 20, 41, 56);

    let mut date_addr = 0;
    let mut time_addr = 0;

    time.to_addr(&mut date_addr, &mut time_addr);

    assert_eq!(date_addr, 0x5261);
    assert_eq!(time_addr, 0xA53C);
}

#[test]
fn round_trip_keeps_even_seconds() {
    let original = ZipDateTime::new(29, 11, 2020, 23, 49, 41);

    let mut date_addr = 0;
    let mut time_addr = 0;
    original.to_addr(&mut date_addr, &mut time_addr);
    let decoded = ZipDateTime::from_addr(date_addr, time_addr);

    assert_eq!(decoded.day, 29);
    assert_eq!(decoded.month, 11);
    assert_eq!(decoded.year, 2020);
    assert_eq!(decoded.hour, 23);
    assert_eq!(decoded.minute, 49);
    assert_eq!(decoded.second, 40);
}
