use crossword::keys::tag_key_text;
use crossword::{get_decoded_pk, Error};

#[test]
fn tag_zero_prints_the_first_scheme() {
    let key = [0u8, 0x04, 0x30, 0x5e, 0x2b, 0x24, 0x73, 0xf0, 0x58];
    assert_eq!(get_decoded_pk(&key), Ok(String::from("scheme0:he11owor1d")));
}

#[test]
fn tag_one_prints_the_second_scheme() {
    let key = [1u8, 0x04, 0x30, 0x5e, 0x2b, 0x24, 0x73, 0xf0, 0x58];
    assert_eq!(get_decoded_pk(&key), Ok(String::from("scheme1:he11owor1d")));
}

#[test]
fn a_key_of_thirty_two_bytes() {
    let body = bs58::decode("6E8sCci9badyRkXb3JoRpBj5p8C6Tw41ELDZoiihKEtp")
        .into_vec()
        .unwrap();
    assert_eq!(body.len(), 32);
    let mut key = vec![0u8];
    key.extend(body);
    assert_eq!(
        get_decoded_pk(&key),
        Ok(String::from("scheme0:6E8sCci9badyRkXb3JoRpBj5p8C6Tw41ELDZoiihKEtp"))
    );
    key[0] = 1;
    assert_eq!(
        get_decoded_pk(&key),
        Ok(String::from("scheme1:6E8sCci9badyRkXb3JoRpBj5p8C6Tw41ELDZoiihKEtp"))
    );
}

#[test]
fn zero_bytes_print_as_ones() {
    let key = [0u8; 33];
    assert_eq!(
        get_decoded_pk(&key),
        Ok(String::from("scheme0:11111111111111111111111111111111"))
    );
}

#[test]
fn the_tag_is_not_part_of_the_body() {
    // 0x01 alone is "2" in base 58; with the tag encoded too it would be longer.
    assert_eq!(get_decoded_pk(&[1u8, 1u8]), Ok(String::from("scheme1:2")));
    assert_eq!(get_decoded_pk(&[0u8, 57u8]), Ok(String::from("scheme0:z")));
    assert_eq!(get_decoded_pk(&[0u8, 58u8]), Ok(String::from("scheme0:21")));
}

#[test]
fn a_key_of_the_tag_alone_has_an_empty_body() {
    assert_eq!(get_decoded_pk(&[0u8]), Ok(String::from("scheme0:")));
    assert_eq!(get_decoded_pk(&[1u8]), Ok(String::from("scheme1:")));
}

#[test]
fn other_tags_are_unknown() {
    assert_eq!(get_decoded_pk(&[2u8, 1, 2, 3]), Err(Error::UnknownKeyScheme));
    assert_eq!(get_decoded_pk(&[255u8; 33]), Err(Error::UnknownKeyScheme));
    assert_eq!(get_decoded_pk(&[2u8]), Err(Error::UnknownKeyScheme));
}

#[test]
fn an_empty_key_has_no_scheme() {
    assert_eq!(get_decoded_pk(&[]), Err(Error::UnknownKeyScheme));
}

#[test]
fn tag_key_text_puts_the_scheme_in_front() {
    assert_eq!(tag_key_text(0, "abc"), Ok(String::from("scheme0:abc")));
    assert_eq!(tag_key_text(1, "abc"), Ok(String::from("scheme1:abc")));
    assert_eq!(tag_key_text(1, ""), Ok(String::from("scheme1:")));
    assert_eq!(tag_key_text(2, "abc"), Err(Error::UnknownKeyScheme));
    assert_eq!(tag_key_text(255, ""), Err(Error::UnknownKeyScheme));
}
