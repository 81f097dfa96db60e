use isuports::model::PlayerScoreRow;
use isuports::scores::{check_header, keep_last_rows, parse_score, read_score_table, score_line};
use isuports::text::signed_decimal_text;

fn row(player: &str, score: i64, row_num: i64) -> PlayerScoreRow {
    PlayerScoreRow {
        tenant_id: 5,
        id: format!("id{}", row_num),
        player_id: player.to_string(),
        competition_id: "c1".to_string(),
        score,
        row_num,
        created_at: 0,
        updated_at: 0,
    }
}

fn fields(list: &[&str]) -> Result<Vec<String>, String> {
    Ok(list.iter().map(|f| f.to_string()).collect())
}

#[test]
fn a_table_is_its_records_after_the_header() {
    let table = read_score_table(b"player_id,score\np1,10\n\"p,2\",20\n").unwrap();
    assert_eq!(table, vec![fields(&["p1", "10"]), fields(&["p,2", "20"])]);
    assert_eq!(read_score_table(b"player_id,score\n").unwrap(), Vec::new());
}

#[test]
fn other_headers_are_refused() {
    for data in [&b"score,player_id\n1,p\n"[..], b"player_id\np\n", b"player_id,score,x\n", b""] {
        let e = read_score_table(data).unwrap_err();
        assert_eq!(e.status_code().as_u16(), 400);
        assert_eq!(e.text(), "invalid CSV headers");
    }
    assert!(check_header(fields(&["player_id", "score"])).is_ok());
    assert_eq!(check_header(Err("broken".to_string())).unwrap_err().text(), "CSV error: broken");
}

#[test]
fn a_header_that_is_not_text_is_a_csv_error() {
    let e = read_score_table(b"player_id,sc\xffre\n").unwrap_err();
    assert_eq!(e.status_code().as_u16(), 500);
    assert!(e.text().starts_with("CSV error: "));
}

#[test]
fn records_of_unequal_length_are_csv_errors() {
    let table = read_score_table(b"player_id,score\np1,10\np2,20,30\n").unwrap();
    assert_eq!(table.len(), 2);
    assert!(table[0].is_ok());
    let e = score_line(&table[1]).unwrap_err();
    assert!(e.text().starts_with("CSV error: "));
    assert_eq!(e.status_code().as_u16(), 500);
}

#[test]
fn errors_name_the_place_of_the_record() {
    let table = read_score_table(b"player_id,score\np\xff,10\n").unwrap();
    let e = score_line(&table[0]).unwrap_err();
    assert!(e.text().starts_with("CSV error: CSV parse error: record 1 (line 2, field: 0, byte: 16): "));
}

#[test]
fn a_line_is_a_player_and_a_score() {
    let line = score_line(&fields(&["p1", "10"])).unwrap();
    assert_eq!(line.player_id, "p1");
    assert_eq!(line.score, "10");
}

#[test]
fn a_line_without_two_fields_is_refused() {
    let e = score_line(&fields(&["p1", "10", "x"])).err().unwrap();
    assert_eq!(e.status_code().as_u16(), 500);
    assert_eq!(e.text(), "row must have tow columns: StringRecord([\"p1\", \"10\", \"x\"])");
}

#[test]
fn scores_are_signed_integers() {
    assert_eq!(parse_score("0").unwrap(), 0);
    assert_eq!(parse_score("007").unwrap(), 7);
    assert_eq!(parse_score("+12").unwrap(), 12);
    assert_eq!(parse_score("-12").unwrap(), -12);
    assert_eq!(parse_score("9223372036854775807").unwrap(), i64::MAX);
    assert_eq!(parse_score("-9223372036854775808").unwrap(), i64::MIN);
}

#[test]
fn a_score_in_decimal_is_read_back() {
    for score in [0, 1, -1, 10, 999, i64::MAX, i64::MIN] {
        assert_eq!(parse_score(&signed_decimal_text(score)).unwrap(), score);
    }
}

#[test]
fn other_scores_are_refused() {
    for (text, cause) in [
        ("", "cannot parse integer from empty string"),
        ("abc", "invalid digit found in string"),
        ("1 ", "invalid digit found in string"),
        ("1.5", "invalid digit found in string"),
        ("9223372036854775808", "number too large to fit in target type"),
        ("-9223372036854775809", "number too small to fit in target type"),
    ] {
        let e = parse_score(text).unwrap_err();
        assert_eq!(e.status_code().as_u16(), 400);
        assert_eq!(e.text(), format!("error parse: score_str={}, {}", text, cause));
    }
}

#[test]
fn the_last_row_of_each_player_is_kept() {
    let rows = vec![row("a", 1, 0), row("b", 2, 1), row("a", 3, 2), row("c", 4, 3), row("b", 5, 4)];
    let kept = keep_last_rows(rows);
    let seen: Vec<(&str, i64)> = kept.iter().map(|r| (r.player_id.as_str(), r.score)).collect();
    assert_eq!(seen, vec![("a", 3), ("c", 4), ("b", 5)]);
    assert_eq!(keep_last_rows(Vec::new()).len(), 0);
}
