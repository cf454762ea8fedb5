use mbl2::maps::{find_minecraft_library_manually, parse_range, MapsError};
use mbl2::scanner::SimpleMapRange;

const LISTING: &[u8] = b"\
12c00000-52c00000 rw-p 00000000 00:00 0                                  [anon:dalvik-main space]\n\
7a1c000000-7a1c200000 r--p 00000000 fd:05 1234                           /data/app/x/lib/arm64/libminecraftpe.so\n\
7a1c200000-7a24a00000 r-xp 00200000 fd:05 1234                           /data/app/x/lib/arm64/libminecraftpe.so\n\
7a24a00000-7a25000000 rw-p 08a00000 fd:05 1234                           /data/app/x/lib/arm64/libminecraftpe.so\n\
7a30000000-7a30100000 r-xp 00000000 fd:05 99                             /system/lib64/libc.so\n";

#[test]
fn line_of_the_library_gives_its_two_addresses() {
    let line = b"7a1c200000-7a24a00000 r-xp 00200000 fd:05 1234    /data/app/x/libminecraftpe.so";
    assert_eq!(parse_range(line), Some((&b"7a1c200000"[..], &b"7a24a00000"[..])));
}

#[test]
fn line_without_execute_permission_is_not_taken() {
    let line = b"7a1c000000-7a1c200000 r--p 00000000 fd:05 1234 /data/app/x/libminecraftpe.so";
    assert_eq!(parse_range(line), None);
}

#[test]
fn line_of_another_file_is_not_taken() {
    assert_eq!(parse_range(b"7a30000000-7a30100000 r-xp 00000000 fd:05 99 /system/lib64/libc.so"), None);
    assert_eq!(parse_range(b"1-2 r-xp 0 0 0 libminecraftpe.so.bak"), None);
    assert_eq!(parse_range(b"1-2 r-xp 0 0 0 "), None);
}

#[test]
fn short_lines_are_not_taken() {
    assert_eq!(parse_range(b""), None);
    assert_eq!(parse_range(b"   "), None);
    assert_eq!(parse_range(b"1-2"), None);
    assert_eq!(parse_range(b"1-2 r-xp"), None);
    assert_eq!(parse_range(b"1-2 libminecraftpe.so"), None);
    assert_eq!(parse_range(b"1-2 x "), None);
}

#[test]
fn three_fields_are_enough() {
    assert_eq!(parse_range(b"1-2 x libminecraftpe.so"), Some((&b"1"[..], &b"2"[..])));
    assert_eq!(parse_range(b"1-2\tx\tlibminecraftpe.so"), Some((&b"1"[..], &b"2"[..])));
}

#[test]
fn the_second_field_is_the_permissions_even_when_empty() {
    assert_eq!(parse_range(b"1-2  r-xp libminecraftpe.so"), None);
}

#[test]
fn the_range_is_cut_at_its_first_hyphen() {
    assert_eq!(parse_range(b"1-2-3 x libminecraftpe.so"), Some((&b"1"[..], &b"2-3"[..])));
    assert_eq!(parse_range(b"- x libminecraftpe.so"), Some((&b""[..], &b""[..])));
    assert_eq!(parse_range(b"12 x libminecraftpe.so"), None);
    assert_eq!(parse_range(b" x y libminecraftpe.so"), None);
}

#[test]
fn library_is_found_in_a_listing() {
    assert_eq!(
        find_minecraft_library_manually(LISTING),
        Ok(SimpleMapRange { start: 0x7a1c200000, size: 0x7a24a00000 - 0x7a1c200000 })
    );
}

#[test]
fn listing_with_carriage_returns_and_no_last_newline() {
    let listing = b"1000-2000 r--p 0 0 0 /x/libc.so\r\n\r\n3000-5000 r-xp 0 0 0 /x/libminecraftpe.so\r\n6000-7000 r-xp 0 0 0 /x/libminecraftpe.so";
    assert_eq!(
        find_minecraft_library_manually(listing),
        Ok(SimpleMapRange { start: 0x3000, size: 0x2000 })
    );
    let listing = b"AbC0-abcd r-xp 0 0 0 /x/libminecraftpe.so";
    assert_eq!(
        find_minecraft_library_manually(listing),
        Ok(SimpleMapRange { start: 0xabc0, size: 0xd })
    );
}

#[test]
fn a_carriage_return_before_the_end_of_the_text_belongs_to_the_path() {
    let listing = b"3000-5000 r-xp 0 0 0 /x/libminecraftpe.so\r";
    assert_eq!(find_minecraft_library_manually(listing), Err(MapsError::NotFound));
}

#[test]
fn listing_without_the_library() {
    assert_eq!(find_minecraft_library_manually(b""), Err(MapsError::NotFound));
    assert_eq!(find_minecraft_library_manually(b"\n\n"), Err(MapsError::NotFound));
    assert_eq!(
        find_minecraft_library_manually(b"1000-2000 r-xp 0 0 0 /x/libc.so\n"),
        Err(MapsError::NotFound)
    );
}

#[test]
fn addresses_are_read_up_to_the_first_other_byte() {
    assert_eq!(
        find_minecraft_library_manually(b"10zz-20yy x libminecraftpe.so"),
        Ok(SimpleMapRange { start: 0x10, size: 0x10 })
    );
    assert_eq!(
        find_minecraft_library_manually(b"-20 x libminecraftpe.so"),
        Ok(SimpleMapRange { start: 0, size: 0x20 })
    );
    assert_eq!(
        find_minecraft_library_manually(b"zz-yy x libminecraftpe.so"),
        Ok(SimpleMapRange { start: 0, size: 0 })
    );
}

#[test]
fn the_first_line_of_the_library_decides_even_when_it_is_bad() {
    let listing = b"5000-3000 r-xp 0 0 0 /x/libminecraftpe.so\n3000-5000 r-xp 0 0 0 /x/libminecraftpe.so\n";
    assert_eq!(find_minecraft_library_manually(listing), Err(MapsError::BadRange));
}

#[test]
fn addresses_must_fit_64_bits() {
    assert_eq!(
        find_minecraft_library_manually(b"0-ffffffffffffffff x libminecraftpe.so"),
        Ok(SimpleMapRange { start: 0, size: u64::MAX })
    );
    assert_eq!(
        find_minecraft_library_manually(b"0-0000ffffffffffffffff x libminecraftpe.so"),
        Ok(SimpleMapRange { start: 0, size: u64::MAX })
    );
    assert_eq!(
        find_minecraft_library_manually(b"0-10000000000000000 x libminecraftpe.so"),
        Err(MapsError::BadRange)
    );
    assert_eq!(
        find_minecraft_library_manually(b"fffffffffffffffff-0 x libminecraftpe.so"),
        Err(MapsError::BadRange)
    );
}
