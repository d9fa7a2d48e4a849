use ledger_replay::{
    into_named_accounts, into_named_assets, parse_date, parse_line, split_fields, Command, Date,
    IntoTrans, NameBank, Pending, TransErr, TransExt, FLOW, NR_BUILDIN_ACCOUNTS, NULL,
};

fn parsed(line: &str, nb: &mut NameBank, date: &mut Date) -> Pending {
    match parse_line(line, nb, date) {
        Some(Ok(p)) => p,
        _ => panic!("line did not parse: {}", line),
    }
}

fn failed(line: &str, nb: &mut NameBank, date: &mut Date) -> TransErr {
    match parse_line(line, nb, date) {
        Some(Err(e)) => e,
        _ => panic!("line did not fail: {}", line),
    }
}

#[test]
fn split_keeps_empty_pieces() {
    assert_eq!(split_fields("a,,b,", ','), vec!["a", "", "b", ""]);
    assert_eq!(split_fields("", ','), vec![""]);
    assert_eq!(split_fields("1/2/2020", '/'), vec!["1", "2", "2020"]);
}

#[test]
fn dates_parse() {
    assert_eq!(parse_date("3/11/2021"), Ok((3, 11, 2021)));
    assert_eq!(parse_date("+3/011/2021"), Ok((3, 11, 2021)));
    assert_eq!(parse_date("3/11"), Err(TransErr::DateFields));
    assert_eq!(parse_date("x/11/2021"), Err(TransErr::ParseError("day".to_string(), "x".to_string())));
    assert_eq!(parse_date("1/256/2021"), Err(TransErr::ParseError("month".to_string(), "256".to_string())));
    assert_eq!(parse_date("1/1/70000"), Err(TransErr::ParseError("year".to_string(), "70000".to_string())));
}

#[test]
fn blank_and_comment_lines_are_skipped() {
    let mut nb = NameBank::new();
    let mut date = (1, 1, 2000);
    assert!(parse_line("", &mut nb, &mut date).is_none());
    assert!(parse_line("# mov,1/1/2020,a,b,1", &mut nb, &mut date).is_none());
    assert_eq!(date, (1, 1, 2000));
    assert_eq!(nb.next_account_id(), NR_BUILDIN_ACCOUNTS);
}

#[test]
fn dat_sets_the_date() {
    let mut nb = NameBank::new();
    let mut date = (1, 1, 2000);
    assert!(parse_line("dat,5/6/2022", &mut nb, &mut date).is_none());
    assert_eq!(date, (5, 6, 2022));
    assert_eq!(failed("dat,_", &mut nb, &mut date), TransErr::DateFields);
}

#[test]
fn mov_line() {
    let mut nb = NameBank::new();
    let mut date = (1, 1, 2000);
    let p = parsed("mov,2/3/2021,null,bank,10*2,note,food,rent", &mut nb, &mut date);
    assert_eq!(p.command, Command::Mov);
    assert_eq!(p.date, (2, 3, 2021));
    assert_eq!(p.ids, vec![NULL, NR_BUILDIN_ACCOUNTS]);
    assert_eq!(p.amounts.len(), 1);
    assert_eq!(p.amounts[0].field, "amount");
    assert_eq!(p.amounts[0].text, "10*2");
    assert!(!p.amounts[0].plain);
    assert_eq!(p.tags, vec!["food", "rent"]);
    let t = p.complete(&[20], &mut nb);
    assert_eq!(t.ext, TransExt::Mov { src: NULL, dst: NR_BUILDIN_ACCOUNTS, amount: 20 });
    assert_eq!(t.tags, vec![0, 1]);
    assert_eq!(t.date, (2, 3, 2021));
}

#[test]
fn underscore_keeps_the_date() {
    let mut nb = NameBank::new();
    let mut date = (9, 9, 2019);
    let p = parsed("set,_,bank,5", &mut nb, &mut date);
    assert_eq!(p.date, (9, 9, 2019));
    assert_eq!(p.command, Command::Assign);
    let t = p.complete(&[5], &mut nb);
    assert_eq!(t.ext, TransExt::Assign { amount: 5, dst: NR_BUILDIN_ACCOUNTS });
    assert!(t.tags.is_empty());
}

#[test]
fn asset_lines_name_assets() {
    let mut nb = NameBank::new();
    let mut date = (1, 1, 2020);
    let p = parsed("con,_,gold,1,silver,20", &mut nb, &mut date);
    assert_eq!(p.ids, vec![2, 3]);
    assert_eq!(nb.asset_name(3), "silver");
    assert_eq!(nb.next_account_id(), NR_BUILDIN_ACCOUNTS);
    let t = p.complete(&[1, 20], &mut nb);
    assert_eq!(t.ext, TransExt::Con { src: 2, dst: 3, src_amount: 1, dst_amount: 20 });
    let p = parsed("pri,_,gold,2,30", &mut nb, &mut date);
    assert!(p.amounts[0].plain);
    assert_eq!(p.amounts[1].field, "worth");
    assert_eq!(p.complete(&[2, 30], &mut nb).ext, TransExt::Pri { asset: 2, amount: 2, worth: 30 });
}

#[test]
fn line_errors() {
    let mut nb = NameBank::new();
    let mut date = (1, 1, 2020);
    assert_eq!(failed("mov", &mut nb, &mut date), TransErr::NotEnoughFields("any command".to_string()));
    assert_eq!(failed("mov,_,a,b", &mut nb, &mut date), TransErr::NotEnoughFields("mov".to_string()));
    assert_eq!(failed("foo,_,a", &mut nb, &mut date), TransErr::UnknownCommand("foo".to_string()));
    assert_eq!(failed("ass,1/2", &mut nb, &mut date), TransErr::DateFields);
    assert_eq!(nb.next_account_id(), NR_BUILDIN_ACCOUNTS);
    assert_eq!(date, (1, 1, 2020));
}

#[test]
fn error_messages() {
    assert_eq!(TransErr::UnknownCommand("foo".to_string()).message(), "Unknown command: foo");
    assert_eq!(
        TransErr::ParseError("day".to_string(), "x".to_string()).message(),
        "Could not parse 'x' in field 'day'"
    );
    assert_eq!(TransErr::DateFields.message(), "A date needs 3 fields (day/month/year)");
}

#[test]
fn named_balances() {
    let mut nb = NameBank::new();
    nb.account_id("bank".to_string());
    let named = into_named_accounts(&[0, 5, 0, 0, 0, 0, 0, 0, 0, 0, 0, 0, 7, 9], &nb);
    assert_eq!(named[FLOW], ("_flow".to_string(), 5));
    assert_eq!(named[12], ("bank".to_string(), 7));
    assert_eq!(named[13], ("unnamed".to_string(), 9));
    let assets = into_named_assets(&[3], &nb);
    assert_eq!(assets, vec![("REAL_FIAT".to_string(), 3)]);
}

#[test]
fn string_into_trans() {
    let mut nb = NameBank::new();
    let mut date = (1, 1, 2020);
    let p = match "deb,4/4/2024,card".to_string().into_trans(&mut nb, &mut date) {
        Some(Ok(p)) => p,
        _ => panic!("line did not parse"),
    };
    assert_eq!(p.command, Command::Deb);
    assert_eq!(date, (4, 4, 2024));
    assert_eq!(p.complete(&[], &mut nb).ext, TransExt::Deb { account: NR_BUILDIN_ACCOUNTS });
    assert!("# note".to_string().into_trans(&mut nb, &mut date).is_none());
}

#[test]
fn more_error_messages() {
    assert_eq!(
        TransErr::NotEnoughFields("mov".to_string()).message(),
        "Not enough fields (comma separated) for mov"
    );
    assert_eq!(
        TransErr::FloatError("amount".to_string(), "1+".to_string(), "bad".to_string()).message(),
        "Could not parse '1+' in float 'amount': bad"
    );
    assert_eq!(
        TransErr::MultipleFloats("sub".to_string()).message(),
        "Field 'sub' returned more than one floating point value"
    );
}
