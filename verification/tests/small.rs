use vending_machine::conf::{conf_path, CONF_FLAG, DEFAULT_CONF};
use vending_machine::matrix::{sum, sum_row, Matrix, RANK};
use vending_machine::random::{Fact, FACT_GROWTH, FACT_HEAP};
use vending_machine::text::to_decimal;

fn args(words: &[&str]) -> Vec<String> {
    words.iter().map(|word| word.to_string()).collect()
}

#[test]
fn conf_path_comes_from_the_command_line_first() {
    assert_eq!(
        conf_path(&args(&["app", "--conf", "a.conf"]), Some("b.conf".to_string())),
        "a.conf"
    );
    assert_eq!(
        conf_path(&args(&["app", "-v", "--conf", "a.conf", "--conf", "c.conf"]), None),
        "a.conf"
    );
    assert_eq!(conf_path(&args(&["--conf", "--conf"]), None), "--conf");
}

#[test]
fn conf_path_falls_back_to_the_environment_and_the_default() {
    assert_eq!(
        conf_path(&args(&["app"]), Some("b.conf".to_string())),
        "b.conf"
    );
    assert_eq!(
        conf_path(&args(&["app", "--conf"]), Some("b.conf".to_string())),
        "b.conf"
    );
    assert_eq!(conf_path(&args(&["app", "--conf"]), None), "/etc/app/app.conf");
    assert_eq!(conf_path(&args(&[]), None), DEFAULT_CONF);
    assert_eq!(conf_path(&args(&["app", "--config", "a.conf"]), None), DEFAULT_CONF);
    assert_eq!(CONF_FLAG, "--conf");
}

#[test]
fn matrix_sum_adds_every_entry() {
    let zero: Matrix = [[0; RANK]; RANK];
    assert_eq!(sum(&zero), 0);

    let full: Matrix = [[255; RANK]; RANK];
    assert_eq!(sum(&full), 64 * 64 * 255);

    let mut mixed: Matrix = [[0; RANK]; RANK];
    for (i, row) in mixed.iter_mut().enumerate() {
        for (j, entry) in row.iter_mut().enumerate() {
            *entry = ((i * 7 + j * 3) % 256) as u8;
        }
    }
    let expected: u64 = mixed
        .iter()
        .map(|row| row.iter().copied().map(u64::from).sum::<u64>())
        .sum();
    assert_eq!(sum(&mixed), expected);
    assert_eq!(sum_row(&mixed[5]), mixed[5].iter().map(|e| *e as u64).sum::<u64>());
}

#[test]
fn a_fact_is_one_of_the_two() {
    let teller: Fact<Vec<()>> = Fact::new();
    for _ in 0..20 {
        let told = teller.fact();
        assert!(told == FACT_HEAP || told == FACT_GROWTH);
    }
    assert_eq!(FACT_HEAP, "Vec is heap-allocated.");
    assert_eq!(FACT_GROWTH, "Vec may re-allocate on growing");
}

#[test]
fn numbers_are_written_in_decimal() {
    for n in [0usize, 1, 9, 10, 11, 99, 100, 101, 1234567890, usize::MAX] {
        assert_eq!(to_decimal(n), n.to_string());
    }
}
