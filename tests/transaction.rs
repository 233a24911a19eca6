use csv::StringRecord;
use ledger::amount::{Amount, AmountError};
use ledger::transaction::Transaction;
use std::convert::TryFrom;

#[test]
fn test_convert_amount() {
    assert_eq!(Amount(123456789), "12345.6789".parse::<Amount>().unwrap());
    assert_eq!(Amount(123450789), "12345.0789".parse::<Amount>().unwrap());
    assert_eq!(Amount(123455000), "12345.5".parse::<Amount>().unwrap());
    assert_eq!(Amount(1), "0.0001".parse::<Amount>().unwrap());
    //Too many decimal digits
    assert!("12345.07891".parse::<Amount>().is_err());
    //2 decimals
    assert!("12345.07.0".parse::<Amount>().is_err());
    //non digits included
    assert!("asd12312.12".parse::<Amount>().is_err());
    //used comma instead of point for decimal
    assert!("123123,12".parse::<Amount>().is_err());
}

#[test]
fn test_create_deposit() {
    assert_eq!(
        Transaction::try_from(StringRecord::from(vec!["deposit", "12", "1", "123.0"])),
        Ok(Transaction::Deposit {
            user: 12,
            tx: 1,
            amount: Amount(1230000)
        })
    );
    //amount has wrong format
    assert!(Transaction::try_from(StringRecord::from(vec!["deposit", "12", "1", "123"])).is_err());
    //user id has wrong format
    assert!(
        Transaction::try_from(StringRecord::from(vec!["deposit", "-1", "1", "123.0"])).is_err()
    );
    //user id has wrong format
    assert!(
        Transaction::try_from(StringRecord::from(vec!["deposit", "1", "-1", "123.0"])).is_err()
    );
    //some item is missing
    assert!(Transaction::try_from(StringRecord::from(vec!["deposit", "12", "1"])).is_err());
}

#[test]
fn test_create_withdrawal() {
    assert_eq!(
        Transaction::try_from(StringRecord::from(vec!["withdrawal", "12", "1", "123.0"])),
        Ok(Transaction::Withdrawal {
            user: 12,
            tx: 1,
            amount: Amount(1230000)
        })
    );
    //amount has wrong format
    assert!(
        Transaction::try_from(StringRecord::from(vec!["withdrawal", "12", "1", "123"])).is_err()
    );
    //user id has wrong format
    assert!(
        Transaction::try_from(StringRecord::from(vec!["withdrawal", "-1", "1", "123.0"])).is_err()
    );
    //user id has wrong format
    assert!(
        Transaction::try_from(StringRecord::from(vec!["withdrawal", "1", "-1", "123.0"])).is_err()
    );
    //some item is missing
    assert!(Transaction::try_from(StringRecord::from(vec!["withdrawal", "12", "1"])).is_err());
}

#[test]
fn test_create_dispute() {
    assert_eq!(
        Transaction::try_from(StringRecord::from(vec!["dispute", "12", "1"])),
        Ok(Transaction::Dispute { user: 12, tx: 1 })
    );
    //user id has wrong format
    assert!(Transaction::try_from(StringRecord::from(vec!["dispute", "-1", "1"])).is_err());
    //user id has wrong format
    assert!(Transaction::try_from(StringRecord::from(vec!["dispute", "1", "-1"])).is_err());
    //some item is missing
    assert!(Transaction::try_from(StringRecord::from(vec!["dispute", "12"])).is_err());
}

#[test]
fn test_create_resolve() {
    assert_eq!(
        Transaction::try_from(StringRecord::from(vec!["resolve", "12", "1"])),
        Ok(Transaction::Resolve { user: 12, tx: 1 })
    );
    //user id has wrong format
    assert!(Transaction::try_from(StringRecord::from(vec!["resolve", "-1", "1"])).is_err());
    //user id has wrong format
    assert!(Transaction::try_from(StringRecord::from(vec!["resolve", "1", "-1"])).is_err());
    //some item is missing
    assert!(Transaction::try_from(StringRecord::from(vec!["resolve", "12"])).is_err());
}

#[test]
fn test_create_chargeback() {
    assert_eq!(
        Transaction::try_from(StringRecord::from(vec!["chargeback", "12", "1"])),
        Ok(Transaction::Chargeback { user: 12, tx: 1 })
    );
    //user id has wrong format
    assert!(Transaction::try_from(StringRecord::from(vec!["chargeback", "-1", "1"])).is_err());
    //user id has wrong format
    assert!(Transaction::try_from(StringRecord::from(vec!["chargeback", "1", "-1"])).is_err());
    //some item is missing
    assert!(Transaction::try_from(StringRecord::from(vec!["chargeback", "12"])).is_err());
}

#[test]
fn amount_errors_name_their_cause() {
    assert_eq!("12345".parse::<Amount>(), Err(AmountError::MissingDecimalPoint));
    assert_eq!("1.23456".parse::<Amount>(), Err(AmountError::TooManyDecimalDigits));
    assert_eq!("1.2a".parse::<Amount>(), Err(AmountError::InvalidNumber));
    assert_eq!("1.".parse::<Amount>(), Err(AmountError::InvalidNumber));
    assert_eq!(".5".parse::<Amount>(), Err(AmountError::InvalidNumber));
    assert_eq!("18446744073709551616.0".parse::<Amount>(), Err(AmountError::InvalidNumber));
    assert_eq!("1844674407370956.0".parse::<Amount>(), Err(AmountError::Overflow));
}

#[test]
fn amount_edge_values() {
    assert_eq!("0.0".parse::<Amount>(), Ok(Amount(0)));
    assert_eq!("+1.5".parse::<Amount>(), Ok(Amount(15000)));
    assert_eq!("1844674407370955.1615".parse::<Amount>(), Ok(Amount(u64::MAX)));
    assert_eq!("1844674407370955.1616".parse::<Amount>(), Err(AmountError::Overflow));
}

#[test]
fn record_fields_are_trimmed() {
    assert_eq!(
        Transaction::try_from(StringRecord::from(vec![" deposit ", " 3 ", "\t7", "2.5 "])),
        Ok(Transaction::Deposit { user: 3, tx: 7, amount: Amount(25000) })
    );
    assert_eq!(
        Transaction::from_trimmed_record(&StringRecord::from(vec![" deposit ", "3", "7", "2.5"])),
        Err("unknown transaction type")
    );
}

#[test]
fn record_errors() {
    assert_eq!(
        Transaction::try_from(StringRecord::from(vec!["transfer", "1", "1", "1.0"])),
        Err("unknown transaction type")
    );
    assert_eq!(
        Transaction::try_from(StringRecord::from(Vec::<&str>::new())),
        Err("unknown transaction type")
    );
    assert_eq!(
        Transaction::try_from(StringRecord::from(vec!["dispute", "70000", "1"])),
        Err("wrong format for dispute transaction")
    );
    assert_eq!(
        Transaction::try_from(StringRecord::from(vec!["resolve", "1", "4294967296"])),
        Err("wrong format for resolve transaction")
    );
    assert_eq!(
        Transaction::try_from(StringRecord::from(vec!["chargeback", "65535", "4294967295", "x"])),
        Ok(Transaction::Chargeback { user: 65535, tx: 4294967295 })
    );
}
