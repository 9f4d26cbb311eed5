use ror2_profile::save::{write_coins, SaveStep};

const SAMPLE: &str = "<profile><name>Runner</name><coins>150</coins><totalCollectedCoins>300</totalCollectedCoins></profile>";
const PATCHED: &str = "<profile><name>Runner</name><coins>500</coins><totalCollectedCoins>900</totalCollectedCoins></profile>";

fn ok(text: &str) -> Result<String, String> {
    Ok(String::from(text))
}

fn err(reason: &str) -> Result<String, String> {
    Err(String::from(reason))
}

#[test]
fn saving_begins_with_reading() {
    assert_eq!(
        write_coins("/p/profile.xml", 500, 900),
        SaveStep::Read { path: String::from("/p/profile.xml"), new_coins: 500, new_total: 900 }
    );
}

#[test]
fn saving_backs_up_before_it_writes() {
    let step = write_coins("/p/profile.xml", 500, 900).advance(ok(SAMPLE));
    assert_eq!(
        step,
        SaveStep::Backup {
            path: String::from("/p/profile.xml"),
            backup_path: String::from("/p/profile.xml.bak"),
            content: String::from(SAMPLE),
            new_coins: 500,
            new_total: 900,
        }
    );
    let step = step.advance(ok(""));
    assert_eq!(
        step,
        SaveStep::Write { path: String::from("/p/profile.xml"), content: String::from(PATCHED) }
    );
    let step = step.advance(ok(""));
    assert_eq!(step, SaveStep::Done { result: Ok(()) });
    assert_eq!(step.advance(err("late")), SaveStep::Done { result: Ok(()) });
}

#[test]
fn a_failed_read_ends_the_operation() {
    let step = write_coins("/p/profile.xml", 1, 2).advance(err("No such file or directory (os error 2)"));
    assert_eq!(
        step,
        SaveStep::Done {
            result: Err(String::from("Failed to read file: No such file or directory (os error 2)"))
        }
    );
}

#[test]
fn a_failed_backup_ends_the_operation_before_any_write() {
    let step = write_coins("/p/profile.xml", 1, 2)
        .advance(ok(SAMPLE))
        .advance(err("Permission denied (os error 13)"));
    assert_eq!(
        step,
        SaveStep::Done {
            result: Err(String::from(
                "Failed to create backup file: Permission denied (os error 13)"
            ))
        }
    );
    let again = step.advance(ok(""));
    assert_eq!(
        again,
        SaveStep::Done {
            result: Err(String::from(
                "Failed to create backup file: Permission denied (os error 13)"
            ))
        }
    );
}

#[test]
fn a_failed_write_is_reported() {
    let step = write_coins("/p/profile.xml", 1, 2)
        .advance(ok(SAMPLE))
        .advance(ok(""))
        .advance(err("No space left on device (os error 28)"));
    assert_eq!(
        step,
        SaveStep::Done {
            result: Err(String::from("Failed to write file: No space left on device (os error 28)"))
        }
    );
}

#[test]
fn a_document_without_counters_is_written_back_unchanged() {
    let step = write_coins("p.xml", 5, 6).advance(ok("<profile/>")).advance(ok(""));
    assert_eq!(
        step,
        SaveStep::Write { path: String::from("p.xml"), content: String::from("<profile/>") }
    );
}
