use metgen::phenomena::abbreviation;

#[test]
fn table_holds_every_family() {
    assert_eq!(abbreviation(200), Some("TSRA"));
    assert_eq!(abbreviation(201), Some("TSRA"));
    assert_eq!(abbreviation(202), Some("+TSRA"));
    assert_eq!(abbreviation(210), Some("TS"));
    assert_eq!(abbreviation(211), Some("TS"));
    assert_eq!(abbreviation(212), Some("+TS"));
    assert_eq!(abbreviation(221), Some("TS"));
    assert_eq!(abbreviation(230), Some("TSRA"));
    assert_eq!(abbreviation(231), Some("TSRA"));
    assert_eq!(abbreviation(232), Some("+TSRA"));
    assert_eq!(abbreviation(300), Some("-DZ"));
    assert_eq!(abbreviation(301), Some("DZ"));
    assert_eq!(abbreviation(302), Some("+DZ"));
    assert_eq!(abbreviation(310), Some("-DZRA"));
    assert_eq!(abbreviation(311), Some("DZRA"));
    assert_eq!(abbreviation(312), Some("+DZRA"));
    assert_eq!(abbreviation(313), Some("SHRA"));
    assert_eq!(abbreviation(314), Some("+SHRA"));
    assert_eq!(abbreviation(321), Some("SHRA"));
    assert_eq!(abbreviation(500), Some("RA"));
    assert_eq!(abbreviation(501), Some("RA"));
    assert_eq!(abbreviation(502), Some("+RA"));
    assert_eq!(abbreviation(503), Some("+RA"));
    assert_eq!(abbreviation(504), Some("+RA"));
    assert_eq!(abbreviation(511), Some("FZRA"));
    assert_eq!(abbreviation(520), Some("-SHRA"));
    assert_eq!(abbreviation(521), Some("SHRA"));
    assert_eq!(abbreviation(522), Some("+SHRA"));
    assert_eq!(abbreviation(531), Some("SHRA"));
    assert_eq!(abbreviation(600), Some("-SN"));
    assert_eq!(abbreviation(601), Some("SN"));
    assert_eq!(abbreviation(602), Some("+SN"));
    assert_eq!(abbreviation(611), Some("SLT"));
    assert_eq!(abbreviation(612), Some("-SHSL"));
    assert_eq!(abbreviation(613), Some("SHSL"));
    assert_eq!(abbreviation(615), Some("-RASN"));
    assert_eq!(abbreviation(616), Some("RASN"));
    assert_eq!(abbreviation(620), Some("-SHSN"));
    assert_eq!(abbreviation(621), Some("SHSN"));
    assert_eq!(abbreviation(622), Some("+SHSN"));
    assert_eq!(abbreviation(701), Some("BR"));
    assert_eq!(abbreviation(711), Some("FU"));
    assert_eq!(abbreviation(721), Some("HZ"));
    assert_eq!(abbreviation(731), Some("DU"));
    assert_eq!(abbreviation(741), Some("FG"));
    assert_eq!(abbreviation(751), Some("SA"));
    assert_eq!(abbreviation(761), Some("DU"));
    assert_eq!(abbreviation(762), Some("VA"));
    assert_eq!(abbreviation(771), Some("SQ"));
    assert_eq!(abbreviation(781), Some("+FC"));
    assert_eq!(abbreviation(800), Some("CLR"));
    assert_eq!(abbreviation(801), Some("FEW"));
    assert_eq!(abbreviation(802), Some("SCT"));
    assert_eq!(abbreviation(803), Some("BKN"));
    assert_eq!(abbreviation(804), Some("OVC"));
}

#[test]
fn table_has_no_entry_between_the_listed_codes() {
    let listed = [
        200, 201, 202, 210, 211, 212, 221, 230, 231, 232, 300, 301, 302, 310, 311, 312, 313, 314,
        321, 500, 501, 502, 503, 504, 511, 520, 521, 522, 531, 600, 601, 602, 611, 612, 613, 615,
        616, 620, 621, 622, 701, 711, 721, 731, 741, 751, 761, 762, 771, 781, 800, 801, 802, 803,
        804,
    ];
    for code in -10..1000 {
        assert_eq!(abbreviation(code).is_some(), listed.contains(&code), "code {}", code);
    }
    assert_eq!(abbreviation(i32::MIN), None);
    assert_eq!(abbreviation(i32::MAX), None);
}
