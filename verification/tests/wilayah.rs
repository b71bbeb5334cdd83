use bmkg_edge::api::ApiError;
use bmkg_edge::wilayah::{
    ancestors, attach_paths, children, children_query, db, get, get_query, names_query, normalise,
    provinces, provinces_query, query, regions_json, search, search_query, validate_code,
    wanted_ancestors, Arg, Queried, Region,
};

fn region(code: &str, name: &str, level: u8) -> Region {
    Region {
        code: code.into(),
        name: name.into(),
        level,
        parent: None,
        path: None,
    }
}

fn bad(m: &str) -> ApiError {
    ApiError::BadRequest(m.into())
}

#[test]
fn ancestors_of_a_village() {
    assert_eq!(ancestors("31.74.04.1006"), ["31", "31.74", "31.74.04"]);
    assert!(ancestors("31").is_empty());
}

#[test]
fn normalise_matches_the_seed_builder() {
    assert_eq!(normalise("Pejaten Barat"), "PEJATEN BARAT");
    assert_eq!(normalise("Lubuk Pakam I,II"), "LUBUK PAKAM I II");
    assert_eq!(normalise("  kota  adm.  "), "KOTA ADM");
}

#[test]
fn codes_are_shape_checked() {
    assert!(validate_code("31.74.04.1006").is_ok());
    assert!(validate_code("31").is_ok());
    assert!(validate_code("31..74").is_err());
    assert!(validate_code("31.74.04.1006.9").is_err());
    assert!(validate_code("'; DROP TABLE wilayah--").is_err());
}

#[test]
fn codes_have_one_of_four_lengths() {
    for ok in ["31", "31.74", "31.74.04", "31.74.04.1006"] {
        assert!(validate_code(ok).is_ok(), "{ok}");
    }
    for no in ["", "3", "31.7", "31.74.0", "31.74.04.100", ".31.7", "3174.", "1.2.3.4.5.6.7", "३१"] {
        assert_eq!(
            validate_code(no),
            Err(bad(&format!(
                "{no:?} is not a Kemendagri region code (e.g. 31, 31.74, 31.74.04, 31.74.04.1006)"
            )))
        );
    }
}

#[test]
fn normalising_again_changes_nothing() {
    for s in ["", "a", "Café del Mar!", "x--y", " I,II ", "ABC 9"] {
        let once = normalise(s);
        assert_eq!(normalise(&once), once);
    }
    assert_eq!(normalise("tEbEt tImUr"), normalise("TEBET TIMUR"));
    assert_eq!(normalise("Café del Mar"), "CAFE DEL MAR");
    assert_eq!(normalise("!?"), "");
}

#[test]
fn accents_are_stripped() {
    assert_eq!(normalise("Pérez"), "PEREZ");
    assert_eq!(normalise("PÉREZ"), "PEREZ");
    // The accent as a mark of its own, after its letter.
    assert_eq!(normalise("Pe\u{301}rez"), "PEREZ");
    assert_eq!(normalise("\u{301}a \u{36f} b\u{300}"), "A B");
    assert_eq!(
        normalise("ÀÁÂÃÄÅÇÈÉÊËÌÍÎÏÑÒÓÔÕÖÙÚÛÜÝàáâãäåçèéêëìíîïñòóôõöùúûüýÿ"),
        "AAAAAACEEEEIIIINOOOOOUUUUYAAAAAACEEEEIIIINOOOOOUUUUYY"
    );
    assert_eq!(
        normalise("ĀāĂăĄąĆćĈĉĊċČčĎďĒēĔĕĖėĘęĚěĜĝĞğĠġĢģĤĥĨĩĪīĬĭĮįİĴĵĶķĹĺĻļĽľ"),
        "AAAAAACCCCCCCCDDEEEEEEEEEEGGGGGGGGHHIIIIIIIIIJJKKLLLLLL"
    );
    assert_eq!(
        normalise("ŃńŅņŇňŌōŎŏŐőŔŕŖŗŘřŚśŜŝŞşŠšŢţŤťŨũŪūŬŭŮůŰűŲųŴŵŶŷŸŹźŻżŽž"),
        "NNNNNNOOOOOORRRRRRSSSSSSSSTTTTUUUUUUUUUUUUWWYYYZZZZZZ"
    );
    assert_eq!(normalise("ế"), "E");
    assert_eq!(normalise("Nguyễn Huệ"), "NGUYEN HUE");
    assert_eq!(
        normalise("ƠơƯưǍǎǏǐǑǒǓǔǕǖǗǘǙǚǛǜǞǟǠǡǦǧǨǩǪǫǬǭǰǴǵǸǹǺǻȀȁȂȃȄȅȆȇȈȉȊȋȌȍȎȏȐȑȒȓȔȕȖȗȘșȚțȞȟȦȧȨȩȪȫȬȭȮȯȰȱȲȳ"),
        "OOUUAAIIOOUUUUUUUUUUAAAAGGKKOOOOJGGNNAAAAAAEEEEIIIIOOOORRRRUUUUSSTTHHAAEEOOOOOOOOYY"
    );
    assert_eq!(
        normalise("ḀḁḂḃḄḅḆḇḈḉḊḋḌḍḎḏḐḑḒḓḔḕḖḗḘḙḚḛḜḝḞḟḠḡḢḣḤḥḦḧḨḩḪḫḬḭḮḯḰḱḲḳḴḵḶḷḸḹḺḻḼḽḾḿṀṁṂṃṄṅṆṇṈṉṊṋṌṍṎṏṐṑṒṓṔṕṖṗṘṙṚṛṜṝṞṟ"),
        "AABBBBBBCCDDDDDDDDDDEEEEEEEEEEFFGGHHHHHHHHHHIIIIKKKKKKLLLLLLLLMMMMMMNNNNNNNNOOOOOOOOPPPPRRRRRRRR"
    );
    assert_eq!(
        normalise("ṠṡṢṣṤṥṦṧṨṩṪṫṬṭṮṯṰṱṲṳṴṵṶṷṸṹṺṻṼṽṾṿẀẁẂẃẄẅẆẇẈẉẊẋẌẍẎẏẐẑẒẓẔẕẖẗẘẙ"),
        "SSSSSSSSSSTTTTTTTTUUUUUUUUUUVVVVWWWWWWWWWWXXXXYYZZZZZZHTWY"
    );
    assert_eq!(
        normalise("ẠạẢảẤấẦầẨẩẪẫẬậẮắẰằẲẳẴẵẶặẸẹẺẻẼẽẾếỀềỂểỄễỆệỈỉỊịỌọỎỏ"),
        "AAAAAAAAAAAAAAAAAAAAAAAAEEEEEEEEEEEEEEEEIIIIOOOO"
    );
    assert_eq!(
        normalise("ỐốỒồỔổỖỗỘộỚớỜờỞởỠỡỢợỤụỦủỨứỪừỬửỮữỰựỲỳỴỵỶỷỸỹ"),
        "OOOOOOOOOOOOOOOOOOOOUUUUUUUUUUUUUUYYYYYYYY"
    );
    assert_eq!(
        normalise("\u{212a}\u{212b}"),
        "KA"
    );
    // Letters that carry no accent to strip, and what is no letter, part words.
    assert_eq!(normalise("aßb×c÷d"), "A B C D");
}

#[test]
fn plain_queries() {
    let q = provinces_query();
    assert_eq!(
        q.sql,
        "SELECT kode AS code, nama AS name, level, parent FROM wilayah WHERE level = 1 ORDER BY nama"
    );
    assert!(q.args.is_empty());
    let q = children_query("31.74").unwrap();
    assert_eq!(
        q.sql,
        "SELECT kode AS code, nama AS name, level, parent FROM wilayah WHERE parent = ?1 ORDER BY nama"
    );
    assert_eq!(q.args, vec![Arg::Text("31.74".into())]);
    let q = get_query("31").unwrap();
    assert_eq!(
        q.sql,
        "SELECT kode AS code, nama AS name, level, parent FROM wilayah WHERE kode = ?1"
    );
    assert!(children_query("x").is_err());
    assert!(get_query("x").is_err());
}

#[test]
fn rows_become_answers() {
    let rows = || Ok(vec![region("31.74", "Jakarta Selatan", 2)]);
    assert_eq!(provinces(rows()), rows());
    assert_eq!(children("31", 2, rows()), rows());
    assert_eq!(
        children("31", 2, Ok(vec![])),
        Err(ApiError::NotFound("no level-2 regions under 31".into()))
    );
    assert!(matches!(
        children("bad", 2, rows()),
        Err(ApiError::BadRequest(_))
    ));
    assert_eq!(get("31.74", rows()).unwrap().name, "Jakarta Selatan");
    assert_eq!(
        get("31", Ok(vec![])),
        Err(ApiError::NotFound("no region with code 31".into()))
    );
    assert!(matches!(get("bad", rows()), Err(ApiError::BadRequest(_))));
    let down = || ApiError::Internal("down".into());
    assert_eq!(children("31", 2, Err(down())), Err(down()));
    assert_eq!(get("31", Err(down())), Err(down()));
}

#[test]
fn children_are_of_the_level_asked_for() {
    let rows = || {
        Ok(vec![
            region("31.74", "Jakarta Selatan", 2),
            region("31.74.04", "Pasar Minggu", 3),
            region("31.75", "Jakarta Timur", 2),
        ])
    };
    let names: Vec<String> = children("31", 2, rows())
        .unwrap()
        .into_iter()
        .map(|r| r.name)
        .collect();
    assert_eq!(names, ["Jakarta Selatan", "Jakarta Timur"]);
    assert_eq!(children("31", 3, rows()).unwrap()[0].name, "Pasar Minggu");
    assert_eq!(
        children("31", 4, rows()),
        Err(ApiError::NotFound("no level-4 regions under 31".into()))
    );
}

#[test]
fn database_failures_are_internal() {
    let internal = |m: &str| Err(ApiError::Internal(m.into()));
    assert_eq!(
        query(Queried::Bind("x".into())),
        internal("binding query args: x")
    );
    assert_eq!(
        query(Queried::Run("x".into())),
        internal("D1 query failed: x")
    );
    assert_eq!(
        query(Queried::Decode("x".into())),
        internal("decoding D1 rows: x")
    );
    assert_eq!(query(Queried::Rows(vec![])), Ok(vec![]));
    assert_eq!(db(Ok(7)), Ok(7));
    assert_eq!(
        db::<u8>(Err("gone".into())),
        Err(ApiError::Internal(
            "D1 binding 'DB' unavailable: gone".into()
        ))
    );
}

#[test]
fn search_statement() {
    let q = search_query("Pejaten  barat", 10, None).unwrap();
    assert_eq!(
        q.sql,
        "SELECT w.kode AS code, w.nama AS name, w.level AS level, w.parent AS parent \
         FROM wilayah_token t JOIN wilayah w ON w.kode = t.kode \
         WHERE t.token >= ?1 AND t.token < ?2 \
         GROUP BY w.kode \
         ORDER BY (w.nama_norm = ?1) DESC, MIN(length(t.token)) ASC, w.level ASC, w.nama ASC \
         LIMIT ?3"
    );
    assert_eq!(
        q.args,
        vec![
            Arg::Text("PEJATEN BARAT".into()),
            Arg::Text("PEJATEN BARAT\u{FFFF}".into()),
            Arg::Whole(10)
        ]
    );
    let q = search_query("tebet", 0, Some(4)).unwrap();
    assert!(q.sql.contains("t.token < ?2 AND w.level = 4 GROUP BY"));
    assert_eq!(q.args[2], Arg::Whole(1));
    assert_eq!(
        search_query("tebet", 5000, Some(1)).unwrap().args[2],
        Arg::Whole(100)
    );
}

#[test]
fn searches_that_are_refused() {
    assert_eq!(
        search_query(" a!", 10, Some(9)),
        Err(bad("q must be at least 2 characters"))
    );
    assert_eq!(
        search_query("ab", 10, Some(0)),
        Err(bad("level must be 1..4, got 0"))
    );
    assert_eq!(
        search_query("ab", 10, Some(200)),
        Err(bad("level must be 1..4, got 200"))
    );
}

#[test]
fn the_range_holds_the_names_that_start_so() {
    let q = search_query("bar", 1, None).unwrap();
    let (lo, hi) = match (&q.args[0], &q.args[1]) {
        (Arg::Text(a), Arg::Text(b)) => (a.clone(), b.clone()),
        other => panic!("{other:?}"),
    };
    for t in ["BAR", "BARA", "BARAT", "BAR 9", "BA", "BAQ", "BAS", "B", "Z", ""] {
        let t = t.to_string();
        assert_eq!(t >= lo && t < hi, t.starts_with(&lo), "{t}");
    }
}

#[test]
fn names_are_asked_for_once() {
    let rows = vec![
        region("31.74.04.1006", "Pejaten Barat", 4),
        region("31.74.04.1007", "Other", 4),
        region("31.75", "Jakarta Timur", 2),
    ];
    let wanted = wanted_ancestors(&rows);
    assert_eq!(wanted, ["31", "31.74", "31.74.04"]);
    let q = names_query(&wanted).unwrap();
    assert_eq!(
        q.sql,
        "SELECT kode AS code, nama AS name, level, parent FROM wilayah WHERE kode IN (?1,?2,?3)"
    );
    assert_eq!(q.args[2], Arg::Text("31.74.04".into()));
    assert_eq!(names_query(&vec![]), None);
}

#[test]
fn paths_run_from_the_province_down() {
    let found = vec![
        region("31.74.04", "Pasar Minggu", 3),
        region("31", "DKI Jakarta", 1),
        region("31.74", "Kota Adm. Jakarta Selatan", 2),
    ];
    let rows = attach_paths(vec![region("31.74.04.1006", "Pejaten Barat", 4)], &found);
    assert_eq!(
        rows[0].path.as_deref(),
        Some("DKI Jakarta › Kota Adm. Jakarta Selatan › Pasar Minggu › Pejaten Barat")
    );
    let rows = attach_paths(vec![region("94.01", "X", 2)], &found);
    assert_eq!(rows[0].path.as_deref(), Some("X"));
}

#[test]
fn every_hit_has_a_path() {
    // Provinces have no ancestors, so nothing more is looked up for them.
    let hits = search("jakarta", 10, None, Ok(vec![region("31", "DKI Jakarta", 1)]), Err(bad("unused")));
    assert_eq!(hits.unwrap()[0].path.as_deref(), Some("DKI Jakarta"));
    let hits = search(
        "selatan",
        10,
        None,
        Ok(vec![region("31.74", "Jakarta Selatan", 2)]),
        Ok(vec![region("31", "DKI Jakarta", 1)]),
    );
    assert_eq!(
        hits.unwrap()[0].path.as_deref(),
        Some("DKI Jakarta › Jakarta Selatan")
    );
    assert_eq!(
        search("selatan", 10, None, Ok(vec![region("31.74", "S", 2)]), Err(bad("names"))),
        Err(bad("names"))
    );
    assert_eq!(
        search("selatan", 10, None, Err(bad("rows")), Ok(vec![])),
        Err(bad("rows"))
    );
    assert_eq!(
        search("s", 10, None, Ok(vec![]), Ok(vec![])),
        Err(bad("q must be at least 2 characters"))
    );
}

#[test]
fn regions_as_json() {
    let mut r = region("31.74", "Jakarta Selatan", 2);
    r.parent = Some("31".into());
    let j = r.to_json();
    assert_eq!(j.get_text("code"), Some("31.74"));
    assert_eq!(j.get_unsigned("level"), Some(2));
    assert_eq!(j.get_text("parent"), Some("31"));
    assert_eq!(j.get("path"), None);
    assert!(matches!(regions_json(&vec![r]), bmkg_edge::json::Json::Array(v) if v.len() == 1));
}
