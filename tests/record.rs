use screenr::record::{FastaRecord, FastqRecord};

#[test]
fn test_record_fasta() {
    let name = "hello";
    let seq = "ACTGAA";

    let mut rec = FastaRecord::new();
    assert!(rec.is_empty(), "No fields present");
    rec.add_name(name);
    assert!(rec.is_empty(), "Only Name present");
    rec.add_seq(seq);
    assert!(!rec.is_empty(), "Failed empty test");

    assert_eq!(rec.get_name(), name);
    assert_eq!(rec.get_seq(), seq);
}

#[test]
fn test_record() {
    let name = "hello";
    let seq = "ACTGAA";
    let qual = "Qt2135";

    let mut rec = FastqRecord::new();
    assert!(rec.is_empty(), "No fields present");
    rec.add_name(name);
    assert!(rec.is_empty(), "Only Name present");
    rec.add_seq(seq);
    assert!(rec.is_empty(), "Only Name + Seq present");
    rec.add_qual(qual);
    assert!(!rec.is_empty(), "Failed empty test");

    assert_eq!(rec.get_name(), name);
    assert_eq!(rec.get_seq(), seq);
    assert_eq!(rec.get_qual(), qual);
}

#[test]
fn fasta_record_from_lines_trims_and_strips_marker() {
    let lines = vec![">>guide_1 \n".to_string(), "  ACGT\r\n".to_string()];
    let rec = FastaRecord::from_lines(&lines).expect("a full entry");
    assert_eq!(rec.get_name(), "guide_1");
    assert_eq!(rec.get_seq(), "ACGT");
}

#[test]
fn fasta_record_from_lines_trims_unicode_white_space() {
    let lines = vec!["\u{3000}>g_1\u{85}\n".to_string(), "\u{a0}AC GT\t\u{2009}\n".to_string()];
    let rec = FastaRecord::from_lines(&lines).expect("a full entry");
    assert_eq!(rec.get_name(), "g_1");
    assert_eq!(rec.get_seq(), "AC GT");
}

#[test]
fn fasta_record_from_lines_incomplete_ends_stream() {
    assert!(FastaRecord::from_lines(&vec![">only_header\n".to_string()]).is_none());
    assert!(FastaRecord::from_lines(&vec![]).is_none());
    assert!(FastaRecord::from_lines(&vec![">\n".to_string(), "ACGT\n".to_string()]).is_none());
    assert!(FastaRecord::from_lines(&vec![">x\n".to_string(), "   \n".to_string()]).is_none());
}

#[test]
fn fastq_record_from_lines_reads_four_lines() {
    let lines = vec![
        "@read1\n".to_string(),
        "ACGTN\n".to_string(),
        "+\n".to_string(),
        "IIIII\n".to_string(),
    ];
    let rec = FastqRecord::from_lines(&lines).expect("a full entry");
    assert_eq!(rec.get_name(), "@read1");
    assert_eq!(rec.get_seq(), "ACGTN");
    assert_eq!(rec.get_qual(), "IIIII");
}

#[test]
fn fastq_record_from_lines_without_quality_ends_stream() {
    let lines = vec!["@read1\n".to_string(), "ACGTN\n".to_string(), "+\n".to_string()];
    assert!(FastqRecord::from_lines(&lines).is_none());
}

#[test]
fn fasta_fifty_records_all_non_empty() {
    let mut text = String::new();
    for i in 0..50 {
        text.push_str(&format!(">guide{}_x\nACGTACGTACGTACGTACG{}\n", i, i % 10));
    }
    let lines: Vec<String> = text.lines().map(|l| format!("{}\n", l)).collect();
    let mut n_rec: usize = 0;
    let mut pos: usize = 0;
    loop {
        let end = if pos + 2 < lines.len() { pos + 2 } else { lines.len() };
        let chunk: Vec<String> = lines[pos..end].to_vec();
        pos = end;
        match FastaRecord::from_lines(&chunk) {
            Some(rec) => {
                assert!(!rec.get_name().is_empty());
                assert!(!rec.get_seq().is_empty());
                n_rec += 1;
            }
            None => break,
        }
    }
    assert_eq!(n_rec, 50);
}
