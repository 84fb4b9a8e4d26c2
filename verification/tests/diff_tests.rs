use transmuta::cli;
use transmuta::converters::diff::{
    compare_texts, compute_diff, diff_fields, diff_mode, fields_of_line, generate_diff_report,
    insert_sorted, join_fields, normalize_field, select_output, split_line, DiffOptions,
    DiffOutputMode, Precedence,
};

fn list(fields: &[&str]) -> Vec<String> {
    fields.iter().map(|f| f.to_string()).collect()
}

fn options(ignore_case: bool, ignore_whitespace: bool) -> DiffOptions<'static> {
    DiffOptions { delimiter: ',', ignore_case, ignore_whitespace, report_path: None }
}

#[test]
fn fields_are_normalized() {
    assert_eq!(normalize_field("  Na me ", &options(false, false)), "Na me");
    assert_eq!(normalize_field("  Na me ", &options(true, false)), "na me");
    assert_eq!(normalize_field("  Na me ", &options(false, true)), "Name");
    assert_eq!(normalize_field("  Na\tme ", &options(true, true)), "name");
    assert_eq!(normalize_field("   ", &options(false, false)), "");
}

#[test]
fn lines_are_split_at_every_delimiter() {
    assert_eq!(split_line("a,b,c", ','), list(&["a", "b", "c"]));
    assert_eq!(split_line("a,,c,", ','), list(&["a", "", "c", ""]));
    assert_eq!(split_line("", ','), list(&[""]));
    assert_eq!(split_line(",", ','), list(&["", ""]));
    assert_eq!(split_line("a b", ','), list(&["a b"]));
    assert_eq!(split_line("a\tb", '\t'), list(&["a", "b"]));
}

#[test]
fn texts_compare_as_strings_do() {
    let samples = ["", "a", "A", "ab", "b", "ä", "z", "aa", "B", "日本", "😀", "\u{ffff}"];
    for a in samples {
        for b in samples {
            let expected = if a < b {
                Precedence::Before
            } else if a == b {
                Precedence::Same
            } else {
                Precedence::After
            };
            assert_eq!(compare_texts(a, b), expected, "{:?} and {:?}", a, b);
        }
    }
}

#[test]
fn insertion_keeps_order_and_drops_repetition() {
    let mut fields = Vec::new();
    for field in ["m", "b", "z", "b", "a", "m", "ma"] {
        insert_sorted(&mut fields, field.to_string());
    }
    assert_eq!(fields, list(&["a", "b", "m", "ma", "z"]));
}

#[test]
fn fields_of_a_line_are_sorted_and_unique() {
    assert_eq!(
        fields_of_line(" name, id ,,Age,id, ", &options(false, false)),
        list(&["Age", "id", "name"])
    );
    assert_eq!(
        fields_of_line("Name,name,NAME, n ame", &options(true, true)),
        list(&["name"])
    );
    assert_eq!(fields_of_line("", &options(false, false)), Vec::<String>::new());
    let mut expected = list(&["b", "a", "c", "B"]);
    expected.sort();
    expected.dedup();
    assert_eq!(fields_of_line("b,a,c,B,a", &options(false, false)), expected);
}

#[test]
fn comparison_of_two_lists() {
    let (union, only_in_1, only_in_2) =
        compute_diff(&list(&["a", "b", "d"]), &list(&["b", "c", "e", "f"]));
    assert_eq!(union, list(&["a", "b", "c", "d", "e", "f"]));
    assert_eq!(only_in_1, list(&["a", "d"]));
    assert_eq!(only_in_2, list(&["c", "e", "f"]));
    let (union, only_in_1, only_in_2) = compute_diff(&list(&[]), &list(&["x"]));
    assert_eq!(union, list(&["x"]));
    assert_eq!(only_in_1, list(&[]));
    assert_eq!(only_in_2, list(&["x"]));
    let (union, only_in_1, only_in_2) = compute_diff(&list(&["x", "y"]), &list(&["x", "y"]));
    assert_eq!(union, list(&["x", "y"]));
    assert!(only_in_1.is_empty());
    assert!(only_in_2.is_empty());
}

#[test]
fn each_mode_selects_its_fields() {
    let fields1 = list(&["a", "b", "d"]);
    let fields2 = list(&["b", "c"]);
    let (union, only_in_1, only_in_2) = compute_diff(&fields1, &fields2);
    let select = |mode| select_output(mode, &fields1, &fields2, &union, &only_in_1, &only_in_2);
    assert_eq!(select(DiffOutputMode::Union), list(&["a", "b", "c", "d"]));
    assert_eq!(select(DiffOutputMode::Complement), list(&["a", "c", "d"]));
    assert_eq!(select(DiffOutputMode::DiffBasedOnFile1), list(&["a", "b", "c", "d"]));
    assert_eq!(select(DiffOutputMode::DiffBasedOnFile2), list(&["a", "b", "c", "d"]));
    assert_eq!(select(DiffOutputMode::OnlyInFile1), list(&["a", "d"]));
    assert_eq!(select(DiffOutputMode::OnlyInFile2), list(&["c"]));
    assert_eq!(select(DiffOutputMode::SortFile1), list(&["a", "b", "d"]));
    assert_eq!(select(DiffOutputMode::SortFile2), list(&["b", "c"]));
}

#[test]
fn fields_are_joined_with_the_delimiter() {
    assert_eq!(join_fields(&list(&["a", "b", "c"]), ','), "a,b,c");
    assert_eq!(join_fields(&list(&["a"]), ','), "a");
    assert_eq!(join_fields(&list(&[]), ','), "");
    assert_eq!(join_fields(&list(&["", ""]), '\t'), "\t");
}

#[test]
fn report_lists_counts_and_fields() {
    let report = generate_diff_report(
        "one.csv",
        "two.csv",
        &list(&["a", "b"]),
        &list(&["b"]),
        &list(&["a"]),
        &list(&[]),
        1,
    );
    let expected = "Field difference report\n\
=======================\n\
\n\
File 1: one.csv\n\
File 2: two.csv\n\
\n\
Summary\n\
-------\n\
Fields in file 1: 2\n\
Fields in file 2: 1\n\
Fields in both files: 1\n\
Fields only in file 1: 1\n\
Fields only in file 2: 0\n\
\n\
Fields only in file 1\n\
---------------------\n\
- a\n\
\n\
Fields only in file 2\n\
---------------------\n\
(none)\n\
\n\
All fields of file 1\n\
--------------------\n\
- a\n\
- b\n\
\n\
All fields of file 2\n\
--------------------\n\
- b\n";
    assert_eq!(report, expected);
}

#[test]
fn comparison_of_two_lines() {
    let opts = DiffOptions {
        delimiter: ';',
        ignore_case: true,
        ignore_whitespace: false,
        report_path: Some("report.txt"),
    };
    let outcome = diff_fields("one", "ID; Name ;age", "two", "name;City;;id", DiffOutputMode::Complement, &opts);
    assert_eq!(outcome.fields1, list(&["age", "id", "name"]));
    assert_eq!(outcome.fields2, list(&["city", "id", "name"]));
    assert_eq!(outcome.union, list(&["age", "city", "id", "name"]));
    assert_eq!(outcome.only_in_1, list(&["age"]));
    assert_eq!(outcome.only_in_2, list(&["city"]));
    assert_eq!(outcome.common_count, 2);
    assert_eq!(outcome.output_fields, list(&["age", "city"]));
    assert_eq!(outcome.output, "age;city");
    let report = outcome.report.unwrap();
    assert!(report.starts_with("Field difference report\n"));
    assert!(report.contains("File 1: one\nFile 2: two\n"));
    assert!(report.contains("Fields in both files: 2\n"));
}

#[test]
fn report_is_made_only_when_asked_for() {
    let outcome = diff_fields("one", "a,b", "two", "b,c", DiffOutputMode::Union, &options(false, false));
    assert_eq!(outcome.report, None);
    assert_eq!(outcome.output, "a,b,c");
    assert_eq!(outcome.common_count, 1);
}

#[test]
fn command_line_modes_map_to_comparison_modes() {
    assert_eq!(diff_mode(cli::DiffOutputMode::Union), DiffOutputMode::Union);
    assert_eq!(diff_mode(cli::DiffOutputMode::Complement), DiffOutputMode::Complement);
    assert_eq!(diff_mode(cli::DiffOutputMode::DiffBasedOnFile1), DiffOutputMode::DiffBasedOnFile1);
    assert_eq!(diff_mode(cli::DiffOutputMode::DiffBasedOnFile2), DiffOutputMode::DiffBasedOnFile2);
    assert_eq!(diff_mode(cli::DiffOutputMode::OnlyInFile1), DiffOutputMode::OnlyInFile1);
    assert_eq!(diff_mode(cli::DiffOutputMode::OnlyInFile2), DiffOutputMode::OnlyInFile2);
    assert_eq!(diff_mode(cli::DiffOutputMode::SortedFile1), DiffOutputMode::SortFile1);
    assert_eq!(diff_mode(cli::DiffOutputMode::SortedFile2), DiffOutputMode::SortFile2);
}

#[test]
fn splitting_agrees_with_the_standard_library() {
    let lines = ["", ",", "a", "a,b", ",a,,b,", "a;b,c", "日,本", ",,,", " a , b "];
    for line in lines {
        for delimiter in [',', ';', ' ', '本'] {
            let expected: Vec<String> = line.split(delimiter).map(String::from).collect();
            assert_eq!(split_line(line, delimiter), expected, "{:?} at {:?}", line, delimiter);
        }
    }
}

#[test]
fn fields_agree_with_sorting_and_deduplicating() {
    let lines = [
        "zeta,alpha,Beta,alpha,,gamma, beta ,Alpha",
        "b,a,b,a,b,a",
        "x",
        ",,,",
        "ä,a,z,A,Z,é,e,日,月",
    ];
    for line in lines {
        for (ignore_case, ignore_whitespace) in [(false, false), (true, false), (false, true), (true, true)] {
            let opts = options(ignore_case, ignore_whitespace);
            let mut expected: Vec<String> = line
                .split(',')
                .map(|field| {
                    let stripped: String = if ignore_whitespace {
                        field.chars().filter(|c| !c.is_whitespace()).collect()
                    } else {
                        field.trim().to_string()
                    };
                    if ignore_case {
                        stripped.to_lowercase()
                    } else {
                        stripped
                    }
                })
                .filter(|field| !field.is_empty())
                .collect();
            expected.sort();
            expected.dedup();
            assert_eq!(fields_of_line(line, &opts), expected, "{:?}", line);
        }
    }
}

#[test]
fn modes_agree_with_extending_and_sorting() {
    let fields1 = list(&["a", "c", "e", "g", "i"]);
    let fields2 = list(&["b", "c", "d", "g", "z"]);
    let (union, only_in_1, only_in_2) = compute_diff(&fields1, &fields2);
    let mut complement = only_in_1.clone();
    complement.extend_from_slice(&only_in_2);
    complement.sort();
    let mut based_on_1 = fields1.clone();
    based_on_1.extend_from_slice(&only_in_2);
    based_on_1.sort();
    let mut based_on_2 = fields2.clone();
    based_on_2.extend_from_slice(&only_in_1);
    based_on_2.sort();
    let select = |mode| select_output(mode, &fields1, &fields2, &union, &only_in_1, &only_in_2);
    assert_eq!(select(DiffOutputMode::Complement), complement);
    assert_eq!(select(DiffOutputMode::DiffBasedOnFile1), based_on_1);
    assert_eq!(select(DiffOutputMode::DiffBasedOnFile2), based_on_2);
    assert_eq!(fields1.len() + fields2.len() - union.len(), 2);
}
