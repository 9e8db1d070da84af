use cal::{Calendar, CalendarLength};

#[test]
fn test_display() {
    let expected = String::new() +
        "    October 2024    \n" +
        "Su Mo Tu We Th Fr Sa\n" +
        "       1  2  3  4  5\n" +
        " 6  7  8  9 10 11 12\n" +
        "13 14 15 16 17 18 19\n" +
        "20 21 22 23 24 25 26\n" +
        "27 28 29 30 31      ";
    let result = Calendar::new(2024, 10)
        .with_length(CalendarLength::MONTH)
        .to_string();
    assert_eq!(expected, result);

    let expected = String::new() +
        "      January                February                March        \n" +
        "Su Mo Tu We Th Fr Sa   Su Mo Tu We Th Fr Sa   Su Mo Tu We Th Fr Sa\n" +
        "    1  2  3  4  5  6                1  2  3                   1  2\n" +
        " 7  8  9 10 11 12 13    4  5  6  7  8  9 10    3  4  5  6  7  8  9\n" +
        "14 15 16 17 18 19 20   11 12 13 14 15 16 17   10 11 12 13 14 15 16\n" +
        "21 22 23 24 25 26 27   18 19 20 21 22 23 24   17 18 19 20 21 22 23\n" +
        "28 29 30 31            25 26 27 28 29         24 25 26 27 28 29 30\n" +
        "                                              31                  ";
    let result = Calendar::new(2024, 2)
        .with_length(CalendarLength::QUARTER)
        .to_string();
    assert_eq!(expected, result);
    
    let expected = String::new() +
        "   December 2023           January 2024          February 2024    \n" +
        "Su Mo Tu We Th Fr Sa   Su Mo Tu We Th Fr Sa   Su Mo Tu We Th Fr Sa\n" +
        "                1  2       1  2  3  4  5  6                1  2  3\n" +
        " 3  4  5  6  7  8  9    7  8  9 10 11 12 13    4  5  6  7  8  9 10\n" +
        "10 11 12 13 14 15 16   14 15 16 17 18 19 20   11 12 13 14 15 16 17\n" +
        "17 18 19 20 21 22 23   21 22 23 24 25 26 27   18 19 20 21 22 23 24\n" +
        "24 25 26 27 28 29 30   28 29 30 31            25 26 27 28 29      \n" +
        "31                                                                ";
    let result = Calendar::new(2024, 1)
        .with_length(CalendarLength::QUARTER)
        .to_string();
    assert_eq!(expected, result);
    
    let expected = String::new() +
        "   November 2024          December 2024           January 2025    \n" +
        "Su Mo Tu We Th Fr Sa   Su Mo Tu We Th Fr Sa   Su Mo Tu We Th Fr Sa\n" +
        "                1  2    1  2  3  4  5  6  7             1  2  3  4\n" +
        " 3  4  5  6  7  8  9    8  9 10 11 12 13 14    5  6  7  8  9 10 11\n" +
        "10 11 12 13 14 15 16   15 16 17 18 19 20 21   12 13 14 15 16 17 18\n" +
        "17 18 19 20 21 22 23   22 23 24 25 26 27 28   19 20 21 22 23 24 25\n" +
        "24 25 26 27 28 29 30   29 30 31               26 27 28 29 30 31   \n" +
        "                                                                  ";
    let result = Calendar::new(2024, 12)
        .with_length(CalendarLength::QUARTER)
        .to_string();
    assert_eq!(expected, result);

    let expected = String::new() +
        "                               2024                               \n" +
        "                                                                  \n" +
        "      January                February                March        \n" +
        "Su Mo Tu We Th Fr Sa   Su Mo Tu We Th Fr Sa   Su Mo Tu We Th Fr Sa\n" +
        "    1  2  3  4  5  6                1  2  3                   1  2\n" +
        " 7  8  9 10 11 12 13    4  5  6  7  8  9 10    3  4  5  6  7  8  9\n" +
        "14 15 16 17 18 19 20   11 12 13 14 15 16 17   10 11 12 13 14 15 16\n" +
        "21 22 23 24 25 26 27   18 19 20 21 22 23 24   17 18 19 20 21 22 23\n" +
        "28 29 30 31            25 26 27 28 29         24 25 26 27 28 29 30\n" +
        "                                              31                  \n" +
        "       April                   May                    June        \n" +
        "Su Mo Tu We Th Fr Sa   Su Mo Tu We Th Fr Sa   Su Mo Tu We Th Fr Sa\n" +
        "    1  2  3  4  5  6             1  2  3  4                      1\n" +
        " 7  8  9 10 11 12 13    5  6  7  8  9 10 11    2  3  4  5  6  7  8\n" +
        "14 15 16 17 18 19 20   12 13 14 15 16 17 18    9 10 11 12 13 14 15\n" +
        "21 22 23 24 25 26 27   19 20 21 22 23 24 25   16 17 18 19 20 21 22\n" +
        "28 29 30               26 27 28 29 30 31      23 24 25 26 27 28 29\n" +
        "                                              30                  \n" +
        "        July                  August               September      \n" +
        "Su Mo Tu We Th Fr Sa   Su Mo Tu We Th Fr Sa   Su Mo Tu We Th Fr Sa\n" +
        "    1  2  3  4  5  6                1  2  3    1  2  3  4  5  6  7\n" +
        " 7  8  9 10 11 12 13    4  5  6  7  8  9 10    8  9 10 11 12 13 14\n" +
        "14 15 16 17 18 19 20   11 12 13 14 15 16 17   15 16 17 18 19 20 21\n" +
        "21 22 23 24 25 26 27   18 19 20 21 22 23 24   22 23 24 25 26 27 28\n" +
        "28 29 30 31            25 26 27 28 29 30 31   29 30               \n" +
        "                                                                  \n" +
        "      October                November               December      \n" +
        "Su Mo Tu We Th Fr Sa   Su Mo Tu We Th Fr Sa   Su Mo Tu We Th Fr Sa\n" +
        "       1  2  3  4  5                   1  2    1  2  3  4  5  6  7\n" +
        " 6  7  8  9 10 11 12    3  4  5  6  7  8  9    8  9 10 11 12 13 14\n" +
        "13 14 15 16 17 18 19   10 11 12 13 14 15 16   15 16 17 18 19 20 21\n" +
        "20 21 22 23 24 25 26   17 18 19 20 21 22 23   22 23 24 25 26 27 28\n" +
        "27 28 29 30 31         24 25 26 27 28 29 30   29 30 31            \n" +
        "                                                                  ";
    let result = Calendar::new(2024, 5)
        .with_length(CalendarLength::YEAR)
        .to_string();
    assert_eq!(expected, result);
}

#[test]
fn test_format_year() {
    let expected = vec![
        "                               2024                               ",
        "                                                                  ",
        "      January                February                March        ",
        "Su Mo Tu We Th Fr Sa   Su Mo Tu We Th Fr Sa   Su Mo Tu We Th Fr Sa",
        "    1  2  3  4  5  6                1  2  3                   1  2",
        " 7  8  9 10 11 12 13    4  5  6  7  8  9 10    3  4  5  6  7  8  9",
        "14 15 16 17 18 19 20   11 12 13 14 15 16 17   10 11 12 13 14 15 16",
        "21 22 23 24 25 26 27   18 19 20 21 22 23 24   17 18 19 20 21 22 23",
        "28 29 30 31            25 26 27 28 29         24 25 26 27 28 29 30",
        "                                              31                  ",
        "       April                   May                    June        ",
        "Su Mo Tu We Th Fr Sa   Su Mo Tu We Th Fr Sa   Su Mo Tu We Th Fr Sa",
        "    1  2  3  4  5  6             1  2  3  4                      1",
        " 7  8  9 10 11 12 13    5  6  7  8  9 10 11    2  3  4  5  6  7  8",
        "14 15 16 17 18 19 20   12 13 14 15 16 17 18    9 10 11 12 13 14 15",
        "21 22 23 24 25 26 27   19 20 21 22 23 24 25   16 17 18 19 20 21 22",
        "28 29 30               26 27 28 29 30 31      23 24 25 26 27 28 29",
        "                                              30                  ",
        "        July                  August               September      ",
        "Su Mo Tu We Th Fr Sa   Su Mo Tu We Th Fr Sa   Su Mo Tu We Th Fr Sa",
        "    1  2  3  4  5  6                1  2  3    1  2  3  4  5  6  7",
        " 7  8  9 10 11 12 13    4  5  6  7  8  9 10    8  9 10 11 12 13 14",
        "14 15 16 17 18 19 20   11 12 13 14 15 16 17   15 16 17 18 19 20 21",
        "21 22 23 24 25 26 27   18 19 20 21 22 23 24   22 23 24 25 26 27 28",
        "28 29 30 31            25 26 27 28 29 30 31   29 30               ",
        "                                                                  ",
        "      October                November               December      ",
        "Su Mo Tu We Th Fr Sa   Su Mo Tu We Th Fr Sa   Su Mo Tu We Th Fr Sa",
        "       1  2  3  4  5                   1  2    1  2  3  4  5  6  7",
        " 6  7  8  9 10 11 12    3  4  5  6  7  8  9    8  9 10 11 12 13 14",
        "13 14 15 16 17 18 19   10 11 12 13 14 15 16   15 16 17 18 19 20 21",
        "20 21 22 23 24 25 26   17 18 19 20 21 22 23   22 23 24 25 26 27 28",
        "27 28 29 30 31         24 25 26 27 28 29 30   29 30 31            ",
        "                                                                  "
    ];
    let result = Calendar::format_year(2024);
    assert_eq!(expected, result);
}

#[test]
fn test_format_trimester() {
    let expected = vec![
        "      January                February                March        ",
        "Su Mo Tu We Th Fr Sa   Su Mo Tu We Th Fr Sa   Su Mo Tu We Th Fr Sa",
        "    1  2  3  4  5  6                1  2  3                   1  2",
        " 7  8  9 10 11 12 13    4  5  6  7  8  9 10    3  4  5  6  7  8  9",
        "14 15 16 17 18 19 20   11 12 13 14 15 16 17   10 11 12 13 14 15 16",
        "21 22 23 24 25 26 27   18 19 20 21 22 23 24   17 18 19 20 21 22 23",
        "28 29 30 31            25 26 27 28 29         24 25 26 27 28 29 30",
        "                                              31                  "
    ];
    let mut trimester = Vec::new();
    for i in 1..=3 {
        trimester.push(Calendar::format_month(2024, i, false));
    }
    let result = Calendar::format_trimester(trimester);
    assert_eq!(expected, result);

    let expected = vec![
        "    January 2024          February 2024            March 2024     ",
        "Su Mo Tu We Th Fr Sa   Su Mo Tu We Th Fr Sa   Su Mo Tu We Th Fr Sa",
        "    1  2  3  4  5  6                1  2  3                   1  2",
        " 7  8  9 10 11 12 13    4  5  6  7  8  9 10    3  4  5  6  7  8  9",
        "14 15 16 17 18 19 20   11 12 13 14 15 16 17   10 11 12 13 14 15 16",
        "21 22 23 24 25 26 27   18 19 20 21 22 23 24   17 18 19 20 21 22 23",
        "28 29 30 31            25 26 27 28 29         24 25 26 27 28 29 30",
        "                                              31                  "
    ];
    let mut trimester = Vec::new();
    for i in 1..=3 {
        trimester.push(Calendar::format_month(2024, i, true));
    }
    let result = Calendar::format_trimester(trimester);
    assert_eq!(expected, result);
}

#[test]
fn test_format_month() {
    let expected = vec![
        "    October 2024    ",
        "Su Mo Tu We Th Fr Sa",
        "       1  2  3  4  5",
        " 6  7  8  9 10 11 12",
        "13 14 15 16 17 18 19",
        "20 21 22 23 24 25 26",
        "27 28 29 30 31      "
    ];
    let result = Calendar::format_month(2024, 10, true);
    assert_eq!(expected, result);

    let expected = vec![
        "     January 90     ",
        "Su Mo Tu We Th Fr Sa",
        " 1  2  3  4  5  6  7",
        " 8  9 10 11 12 13 14",
        "15 16 17 18 19 20 21",
        "22 23 24 25 26 27 28",
        "29 30 31            "
    ];
    let result = Calendar::format_month(90, 1, true);
    assert_eq!(expected, result);
}

#[test]
fn test_format_weeks() {
    // Starts and ends in the middle of the week
    let expected = vec![
        "       1  2  3  4  5",
        " 6  7  8  9 10 11 12",
        "13 14 15 16 17 18 19",
        "20 21 22 23 24 25 26",
        "27 28 29 30 31      "
    ];
    let weeks = Calendar::get_month_weeks(2024, 10);
    let result = Calendar::format_weeks(weeks);
    assert_eq!(expected, result);

    // Starts on first day of the week
    let expected = vec![
        " 1  2  3  4  5  6  7",
        " 8  9 10 11 12 13 14",
        "15 16 17 18 19 20 21",
        "22 23 24 25 26 27 28",
        "29 30               "
    ];
    let weeks = Calendar::get_month_weeks(2024, 9);
    let result = Calendar::format_weeks(weeks);
    assert_eq!(expected, result);

    // Starts on last day of the week and ends on first day of the week
    let expected = vec![
        "                   1",
        " 2  3  4  5  6  7  8",
        " 9 10 11 12 13 14 15",
        "16 17 18 19 20 21 22",
        "23 24 25 26 27 28 29",
        "30                  "
    ];
    let weeks = Calendar::get_month_weeks(2024, 6);
    let result = Calendar::format_weeks(weeks);
    assert_eq!(expected, result);

    // Ends on last day of the week
    let expected = vec![
        "                1  2",
        " 3  4  5  6  7  8  9",
        "10 11 12 13 14 15 16",
        "17 18 19 20 21 22 23",
        "24 25 26 27 28 29 30"
    ];
    let weeks = Calendar::get_month_weeks(2024, 11);
    let result = Calendar::format_weeks(weeks);
    assert_eq!(expected, result);
}

#[test]
fn test_get_trimester() {
    let expected = vec![
        vec![
            "      January       ",
            "Su Mo Tu We Th Fr Sa",
            "    1  2  3  4  5  6",
            " 7  8  9 10 11 12 13",
            "14 15 16 17 18 19 20",
            "21 22 23 24 25 26 27",
            "28 29 30 31         "
        ],
        vec![
            "      February      ",
            "Su Mo Tu We Th Fr Sa",
            "             1  2  3",
            " 4  5  6  7  8  9 10",
            "11 12 13 14 15 16 17",
            "18 19 20 21 22 23 24",
            "25 26 27 28 29      "
        ],
        vec![
            "       March        ",
            "Su Mo Tu We Th Fr Sa",
            "                1  2",
            " 3  4  5  6  7  8  9",
            "10 11 12 13 14 15 16",
            "17 18 19 20 21 22 23",
            "24 25 26 27 28 29 30",
            "31                  "
        ]
    ];
    let result = Calendar::get_trimester(2024, 2);
    assert_eq!(expected, result);

    let expected = vec![
        vec![
            "   December 2023    ",
            "Su Mo Tu We Th Fr Sa",
            "                1  2",
            " 3  4  5  6  7  8  9",
            "10 11 12 13 14 15 16",
            "17 18 19 20 21 22 23",
            "24 25 26 27 28 29 30",
            "31                  "
        ],
        vec![
            "    January 2024    ",
            "Su Mo Tu We Th Fr Sa",
            "    1  2  3  4  5  6",
            " 7  8  9 10 11 12 13",
            "14 15 16 17 18 19 20",
            "21 22 23 24 25 26 27",
            "28 29 30 31         "
        ],
        vec![
            "   February 2024    ",
            "Su Mo Tu We Th Fr Sa",
            "             1  2  3",
            " 4  5  6  7  8  9 10",
            "11 12 13 14 15 16 17",
            "18 19 20 21 22 23 24",
            "25 26 27 28 29      "
        ]
    ];
    let result = Calendar::get_trimester(2024, 1);
    assert_eq!(expected, result);

    let expected = vec![
        vec![
            "   November 2024    ",
            "Su Mo Tu We Th Fr Sa",
            "                1  2",
            " 3  4  5  6  7  8  9",
            "10 11 12 13 14 15 16",
            "17 18 19 20 21 22 23",
            "24 25 26 27 28 29 30",
        ],
        vec![
            "   December 2024    ",
            "Su Mo Tu We Th Fr Sa",
            " 1  2  3  4  5  6  7",
            " 8  9 10 11 12 13 14",
            "15 16 17 18 19 20 21",
            "22 23 24 25 26 27 28",
            "29 30 31            "
        ],
        vec![
            "    January 2025    ",
            "Su Mo Tu We Th Fr Sa",
            "          1  2  3  4",
            " 5  6  7  8  9 10 11",
            "12 13 14 15 16 17 18",
            "19 20 21 22 23 24 25",
            "26 27 28 29 30 31   "
        ]
    ];
    let result = Calendar::get_trimester(2024, 12);
    assert_eq!(expected, result);
}

#[test]
fn test_get_month_weeks() {
    let expected: Vec<Vec<u32>> = vec![
        vec![0, 0, 1, 2, 3, 4, 5],
        vec![6, 7, 8, 9, 10, 11, 12],
        vec![13, 14, 15, 16, 17, 18, 19],
        vec![20, 21, 22, 23, 24, 25, 26],
        vec![27, 28, 29, 30, 31, 0, 0]
    ];
    let result = Calendar::get_month_weeks(2024, 10);
    assert_eq!(expected, result);

    let expected: Vec<Vec<u32>> = vec![
        vec![0, 0, 0, 0, 1, 2, 3],
        vec![4, 5, 6, 7, 8, 9, 10],
        vec![11, 12, 13, 14, 15, 16, 17],
        vec![18, 19, 20, 21, 22, 23, 24],
        vec![25, 26, 27, 28, 29, 0, 0]
    ];
    let result = Calendar::get_month_weeks(2024, 2);
    assert_eq!(expected, result);
}

#[test]
fn test_get_days_in_month() {
    let result = Calendar::get_days_in_month(2024, 1);
    assert_eq!(31, result);

    let result = Calendar::get_days_in_month(2024, 2);
    assert_eq!(29, result);
}
