use screenr::library::parse_gene;
use screenr::pattern::LiteralPattern;
use screenr::{reverse_complement, FastaRecord, FastqRecord, Library, Orientation};

const FLANK: &str = "GTTTAAGAG";
const PROTO_A: &str = "ACGTACGTACGTACGTACG";
const PROTO_B: &str = "TTGCATTGCATTGCATTGC";

fn key(p: &str) -> String {
    format!("{}{}", p, FLANK)
}

fn forward_read(p: &str) -> String {
    format!("T{}{}CCCC", p, FLANK)
}

fn fasta(name: &str, seq: &str) -> FastaRecord {
    let mut r = FastaRecord::new();
    r.add_name(name);
    r.add_seq(seq);
    r
}

fn fastq(seq: &str) -> FastqRecord {
    let mut r = FastqRecord::new();
    r.add_name("@r");
    r.add_seq(seq);
    r.add_qual("I");
    r
}

fn library(n_samples: usize) -> Library {
    let mut lib = Library::new(FLANK, n_samples).expect("flank compiles");
    lib.load_library(&vec![fasta("GENEA_1", &key(PROTO_A)), fasta("GENEB", &key(PROTO_B))]);
    lib
}

#[test]
fn literal_pattern_finds_leftmost_from_start() {
    let p = LiteralPattern::new("AG").expect("compiles");
    assert_eq!(p.text(), "AG");
    assert!(p.is_match("CCAGT"));
    assert!(!p.is_match("CCGAT"));
    assert_eq!(p.find_from("AGxxAGxAG", 0), Some(0));
    assert_eq!(p.find_from("AGxxAGxAG", 1), Some(4));
    assert_eq!(p.find_from("AGxxAGxAG", 8), None);
    assert_eq!(p.find_from("AGxxAGxAG", 9), None);
    assert_eq!(p.find_from("AGxxAGxAG", 10), None);
    assert_eq!(p.find_from("AG", usize::MAX), None);
    assert_eq!(p.find_from("éé¿AGé", 1), Some(3));
    assert_eq!(p.find_from("éé¿AGéAG", 4), Some(6));
    let dot = LiteralPattern::new("A.C").expect("compiles");
    assert!(!dot.is_match("AGC"));
    assert!(dot.is_match("GA.CG"));
}

#[test]
fn orientation_of_reads() {
    let lib = library(1);
    let fwd = forward_read(PROTO_A);
    assert_eq!(lib.determine_orientation(&fwd), Orientation::Forward);
    assert_eq!(lib.determine_orientation(&reverse_complement(&fwd)), Orientation::Reverse);
    assert_eq!(lib.determine_orientation("ACGTACGTACGT"), Orientation::Unmatched);
}

#[test]
fn orientation_forward_wins_on_both() {
    let lib = library(1);
    let both = format!("{}AAAA{}", FLANK, reverse_complement(FLANK));
    assert_eq!(lib.determine_orientation(&both), Orientation::Forward);
}

#[test]
fn truncate_cuts_protospacer_and_flank() {
    let lib = library(1);
    assert_eq!(lib.truncate_seq(&forward_read(PROTO_A)), Some(key(PROTO_A)));
}

#[test]
fn truncate_ignores_flank_before_offset() {
    let lib = library(1);
    let early = format!("AAAA{}CCCCCCCCCCCCCCCCCCCCCCCC", FLANK);
    assert_eq!(lib.truncate_seq(&early), None);
    assert_eq!(lib.truncate_seq("ACG"), None);
    assert_eq!(lib.truncate_seq(""), None);
    let two = format!("AAAAA{}{}{}", FLANK, "CCCCCCCCCCCCCCCC", FLANK);
    assert_eq!(lib.truncate_seq(&two), Some(two[11..39].to_string()));
}

#[test]
fn truncate_at_exact_offset() {
    let lib = library(1);
    let s = format!("{}{}{}", "G", PROTO_B, FLANK);
    assert_eq!(lib.truncate_seq(&s), Some(key(PROTO_B)));
    let s19 = format!("{}{}", PROTO_B, FLANK);
    assert_eq!(lib.truncate_seq(&s19), None);
}

#[test]
fn truncate_flank_at_twenty() {
    let lib = library(1);
    let s = format!("{}{}", "A".repeat(20), FLANK);
    assert_eq!(lib.truncate_seq(&s), Some(format!("{}{}", "A".repeat(19), FLANK)));
    let s19 = format!("{}{}", "A".repeat(19), FLANK);
    assert_eq!(lib.truncate_seq(&s19), None);
}

#[test]
fn truncate_read_with_non_ascii_characters() {
    let lib = library(1);
    let s = format!("é{}{}ñ", PROTO_A, FLANK);
    assert_eq!(lib.truncate_seq(&s), Some(key(PROTO_A)));
    let t = format!("éééééééééé{}{}", "ü".repeat(19), FLANK);
    assert_eq!(lib.truncate_seq(&t), Some(format!("{}{}", "ü".repeat(19), FLANK)));
    let early = format!("é{}{}", FLANK, "é".repeat(30));
    assert_eq!(lib.truncate_seq(&early), None);
}

#[test]
fn non_ascii_read_is_counted() {
    let mut lib = library(1);
    lib.process_read(&fastq(&format!("é{}{}", PROTO_A, FLANK)), 0);
    assert_eq!(lib.num_fwd(), 1);
    assert_eq!(lib.guide_counts("GENEA_1"), Some(vec![1]));
}

#[test]
fn new_library_is_empty_and_matches_flank() {
    let lib = Library::new(FLANK, 3).expect("flank compiles");
    assert_eq!(lib.n_samples(), 3);
    assert_eq!(lib.num_fwd() + lib.num_rev() + lib.num_total() + lib.reads_seen(), 0);
    assert_eq!(lib.render_table(&vec!["a", "b", "c"]), "sgRNA\tGene\ta\tb\tc\n");
    assert_eq!(lib.determine_orientation(FLANK), Orientation::Forward);
    assert_eq!(lib.determine_orientation(&reverse_complement(FLANK)), Orientation::Reverse);
}

#[test]
fn gene_parsing() {
    assert_eq!(parse_gene("BRCA1_+_123.4"), "BRCA1");
    assert_eq!(parse_gene("NOUNDERSCORE"), "NOUNDERSCORE");
    assert_eq!(parse_gene("_lead"), "");
    assert_eq!(parse_gene(""), "");
}

#[test]
fn lookup_after_load() {
    let lib = library(2);
    assert_eq!(lib.lookup(&key(PROTO_A)), Some("GENEA_1".to_string()));
    assert_eq!(lib.lookup(&key(PROTO_B)), Some("GENEB".to_string()));
    assert_eq!(lib.lookup(PROTO_A), None);
    assert_eq!(lib.guide_counts("GENEA_1"), Some(vec![0, 0]));
    assert_eq!(lib.guide_counts("nope"), None);
}

#[test]
fn duplicate_protospacer_last_write_wins() {
    let mut lib = Library::new(FLANK, 1).expect("flank compiles");
    lib.load_library(&vec![fasta("first_a", &key(PROTO_A)), fasta("second_b", &key(PROTO_A))]);
    assert_eq!(lib.lookup(&key(PROTO_A)), Some("second_b".to_string()));
    let table = lib.render_table(&vec!["s"]);
    assert_eq!(table, "sgRNA\tGene\ts\nfirst_a\tfirst\t0\nsecond_b\tsecond\t0\n");
}

#[test]
fn reloading_a_guide_resets_its_counts() {
    let mut lib = library(1);
    lib.process_read(&fastq(&forward_read(PROTO_A)), 0);
    assert_eq!(lib.guide_counts("GENEA_1"), Some(vec![1]));
    lib.add_guide("GENEA_1", &key(PROTO_A));
    assert_eq!(lib.guide_counts("GENEA_1"), Some(vec![0]));
    assert_eq!(lib.render_table(&vec!["s"]), "sgRNA\tGene\ts\nGENEA_1\tGENEA\t0\nGENEB\tGENEB\t0\n");
}

#[test]
fn match_seq_counts_both_orientations() {
    let mut lib = library(2);
    let fwd = forward_read(PROTO_A);
    lib.match_seq(&fastq(&fwd), 0);
    lib.match_seq(&fastq(&reverse_complement(&fwd)), 1);
    lib.match_seq(&fastq(&forward_read(PROTO_B)), 1);
    assert_eq!(lib.num_fwd(), 2);
    assert_eq!(lib.num_rev(), 1);
    assert_eq!(lib.num_total(), 0);
    assert_eq!(lib.reads_seen(), 3);
    assert_eq!(lib.guide_counts("GENEA_1"), Some(vec![1, 1]));
    assert_eq!(lib.guide_counts("GENEB"), Some(vec![0, 1]));
}

#[test]
fn unmatched_read_changes_no_count() {
    let mut lib = library(1);
    lib.process_read(&fastq("ACGTACGTACGTACGTACGTACGTACGTACGT"), 0);
    assert_eq!(lib.num_fwd() + lib.num_rev(), 0);
    assert_eq!(lib.num_total(), 1);
    assert_eq!(lib.guide_counts("GENEA_1"), Some(vec![0]));
    assert_eq!(lib.guide_counts("GENEB"), Some(vec![0]));
}

#[test]
fn matched_but_unknown_protospacer_counts_match_only() {
    let mut lib = library(1);
    lib.process_read(&fastq(&forward_read("GGGGGGGGGGGGGGGGGGG")), 0);
    assert_eq!(lib.num_fwd(), 1);
    assert_eq!(lib.guide_counts("GENEA_1"), Some(vec![0]));
    assert_eq!(lib.guide_counts("GENEB"), Some(vec![0]));
}

#[test]
fn summary_text_and_reset() {
    let mut lib = library(1);
    let fwd = forward_read(PROTO_A);
    let reads = vec![
        fastq(&fwd),
        fastq(&reverse_complement(&fwd)),
        fastq(&forward_read(PROTO_B)),
        fastq("NNNN"),
    ];
    let summary = lib.match_reader(&reads, 0);
    assert_eq!(
        summary,
        "---\nFwd Matches:\t2\nRev Matches:\t1\nTotal Matches:\t3\nTotal Processed:\t4\n---\n"
    );
    assert_eq!(lib.num_fwd(), 0);
    assert_eq!(lib.num_rev(), 0);
    assert_eq!(lib.num_total(), 0);
    assert_eq!(lib.guide_counts("GENEA_1"), Some(vec![2]));
    assert_eq!(
        lib.summary(),
        "---\nFwd Matches:\t0\nRev Matches:\t0\nTotal Matches:\t0\nTotal Processed:\t0\n---\n"
    );
}

#[test]
fn render_table_exact_and_repeatable() {
    let mut lib = library(2);
    for _ in 0..12 {
        lib.process_read(&fastq(&forward_read(PROTO_A)), 1);
    }
    lib.process_read(&fastq(&forward_read(PROTO_B)), 0);
    let labels = vec!["lib1", "lib2"];
    let first = lib.render_table(&labels);
    assert_eq!(
        first,
        "sgRNA\tGene\tlib1\tlib2\nGENEA_1\tGENEA\t0\t12\nGENEB\tGENEB\t1\t0\n"
    );
    let _ = lib.finish_pass();
    let second = lib.render_table(&labels);
    assert_eq!(first.as_bytes(), second.as_bytes());
}

#[test]
fn count_conservation_over_a_pass() {
    let mut lib = library(1);
    let reads = vec![
        fastq(&forward_read(PROTO_A)),
        fastq(&reverse_complement(&forward_read(PROTO_B))),
        fastq(&forward_read(PROTO_B)),
        fastq("ACGT"),
    ];
    for r in reads.iter() {
        lib.process_read(r, 0);
    }
    let sum: u64 = lib.guide_counts("GENEA_1").unwrap()[0] + lib.guide_counts("GENEB").unwrap()[0];
    assert_eq!(lib.num_fwd() + lib.num_rev(), sum);
    assert_eq!(sum, 3);
}

#[test]
fn end_to_end_fifty_guides() {
    let bases = ['A', 'C', 'G', 'T'];
    let mut records = Vec::new();
    let mut protos = Vec::new();
    for g in 0..50usize {
        let mut p = String::new();
        p.push(bases[g / 16]);
        p.push(bases[(g / 4) % 4]);
        p.push(bases[g % 4]);
        p.push_str("ACGTTGCAACGTTGCA");
        records.push(fasta(&format!("G{}_{}", g % 10, g), &key(&p)));
        protos.push(p);
    }
    let mut lib = Library::new(FLANK, 1).expect("flank compiles");
    lib.load_library(&records);
    let mut reads = Vec::new();
    for i in 0..2500usize {
        let p = &protos[i % 50];
        let read = match i % 5 {
            0 => forward_read(p),
            1 => reverse_complement(&forward_read(p)),
            2 => "ACGTTGCA".repeat(5),
            3 => format!("{}{}", p, FLANK),
            _ => forward_read("GGGGGGGGGGGGGGGGGGG"),
        };
        reads.push(fastq(&read));
    }
    let summary = lib.match_reader(&reads, 0);
    assert_eq!(
        summary,
        "---\nFwd Matches:\t1000\nRev Matches:\t500\nTotal Matches:\t1500\nTotal Processed:\t2500\n---\n"
    );
    let table = lib.render_table(&vec!["s1"]);
    let rows: Vec<&str> = table.lines().collect();
    assert_eq!(rows.len(), 51);
    let mut total: u64 = 0;
    for (g, row) in rows.iter().skip(1).enumerate() {
        let c: u64 = row.rsplit('\t').next().unwrap().parse().unwrap();
        let expected: u64 = if g % 5 < 2 { 50 } else { 0 };
        assert_eq!(c, expected);
        total += c;
    }
    assert_eq!(total, 1000);
    assert!(total <= 2500);
    assert_eq!(table, lib.render_table(&vec!["s1"]));
}

#[test]
fn pass_counters_start_at_zero() {
    let mut lib = library(1);
    lib.process_read(&fastq(&forward_read(PROTO_A)), 0);
    assert_eq!(lib.num_total(), 1);
    let reads = vec![fastq(&forward_read(PROTO_B)), fastq("ACGT"), fastq("TTTT")];
    let summary = lib.match_reader(&reads, 0);
    assert_eq!(
        summary,
        "---\nFwd Matches:\t1\nRev Matches:\t0\nTotal Matches:\t1\nTotal Processed:\t3\n---\n"
    );
    assert_eq!(lib.guide_counts("GENEA_1"), Some(vec![1]));
    assert_eq!(lib.guide_counts("GENEB"), Some(vec![1]));
}

#[test]
fn start_pass_clears_only_pass_counters() {
    let mut lib = library(1);
    lib.process_read(&fastq(&forward_read(PROTO_A)), 0);
    lib.start_pass();
    assert_eq!(lib.num_fwd() + lib.num_rev() + lib.num_total(), 0);
    assert_eq!(lib.reads_seen(), 1);
    assert_eq!(lib.guide_counts("GENEA_1"), Some(vec![1]));
}

#[test]
fn get_direction_per_orientation() {
    let mut lib = library(1);
    let fwd = forward_read(PROTO_A);
    assert_eq!(lib.get_direction(&fastq(&fwd)), Some(key(PROTO_A)));
    assert_eq!((lib.num_fwd(), lib.num_rev()), (1, 0));
    assert_eq!(lib.get_direction(&fastq(&reverse_complement(&fwd))), Some(key(PROTO_A)));
    assert_eq!((lib.num_fwd(), lib.num_rev()), (1, 1));
    assert_eq!(lib.get_direction(&fastq("ACGTACGT")), None);
    assert_eq!((lib.num_fwd(), lib.num_rev()), (1, 1));
    let short = format!("A{}", FLANK);
    assert_eq!(lib.get_direction(&fastq(&short)), None);
    assert_eq!((lib.num_fwd(), lib.num_rev()), (1, 1));
    assert_eq!(lib.guide_counts("GENEA_1"), Some(vec![0]));
}
