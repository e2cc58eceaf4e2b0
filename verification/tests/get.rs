use std::cell::RefCell;

use f1_data::error::F1Error as Error;
use f1_data::get::multi_page_plan;
use f1_data::response::Pagination;

fn pagination(limit: u32, offset: u32, total: u32) -> Pagination {
    Pagination { limit, offset, total }
}

fn http_error() -> Error {
    Error::Http(ureq::Error::ConnectionFailed)
}

#[test]
fn multi_page_plan_lists_pages() {
    let pages = multi_page_plan(pagination(10, 0, 25), None).unwrap();
    assert_eq!(pages, vec![pagination(10, 0, 25), pagination(10, 10, 25), pagination(10, 20, 25)]);

    let pages = multi_page_plan(pagination(30, 0, 16), Some(1)).unwrap();
    assert_eq!(pages, vec![pagination(30, 0, 16)]);

    let pages = multi_page_plan(pagination(10, 5, 15), Some(1)).unwrap();
    assert_eq!(pages, vec![pagination(10, 5, 15)]);
}

#[test]
fn multi_page_plan_error_exceeded_max_page_count() {
    assert!(matches!(
        multi_page_plan(pagination(10, 0, 25), Some(2)),
        Err(Error::ExceededMaxPageCount((3, 2)))
    ));
    assert!(multi_page_plan(pagination(10, 0, 25), Some(3)).is_ok());
}

#[test]
fn counter_closure() {
    let counter = RefCell::new(0);
    let f = |_attempt: usize| {
        *counter.borrow_mut() += 1;
        Ok::<_, Error>(*counter.borrow())
    };
    assert_eq!(f1_data::get::retry_on_http_error(f, Some(3)).unwrap(), 1);
    assert_eq!(*counter.borrow(), 1);
}

#[test]
fn retry_on_http_error() {
    // Succeeds after two HTTP errors
    let counter = RefCell::new(0);
    let f = |_attempt: usize| {
        *counter.borrow_mut() += 1;
        if *counter.borrow() < 3 { Err(http_error()) } else { Ok(*counter.borrow()) }
    };
    assert_eq!(f1_data::get::retry_on_http_error(f, Some(2)).unwrap(), 3);
    assert_eq!(*counter.borrow(), 3);

    // Every attempt fails
    let counter = RefCell::new(0);
    let f = |_attempt: usize| -> Result<u32, Error> {
        *counter.borrow_mut() += 1;
        Err(http_error())
    };
    assert!(matches!(f1_data::get::retry_on_http_error(f, Some(2)), Err(Error::HttpRetries((2, _)))));
    assert_eq!(*counter.borrow(), 3);

    // No retries: the HTTP error is returned as it is
    let counter = RefCell::new(0);
    let f = |_attempt: usize| -> Result<u32, Error> {
        *counter.borrow_mut() += 1;
        Err(http_error())
    };
    assert!(matches!(f1_data::get::retry_on_http_error(f, None), Err(Error::Http(_))));
    assert_eq!(*counter.borrow(), 1);

    // Other errors are not retried
    let counter = RefCell::new(0);
    let f = |_attempt: usize| -> Result<u32, Error> {
        *counter.borrow_mut() += 1;
        Err(Error::NotFound)
    };
    assert!(matches!(f1_data::get::retry_on_http_error(f, Some(5)), Err(Error::NotFound)));
    assert_eq!(*counter.borrow(), 1);
}

fn response_with(pagination: Pagination, seasons: Vec<f1_data::response::Season>) -> f1_data::response::Response {
    f1_data::response::Response {
        xmlns: "".to_string(),
        series: "f1".to_string(),
        url: "https://api.jolpi.ca/ergast/f1/seasons.json".to_string(),
        pagination,
        table: f1_data::response::Table::Seasons { seasons },
    }
}

#[test]
fn planned_pages_concatenate_with_every_verification() {
    let seasons: Vec<_> = (1950..1975u32)
        .map(|year| f1_data::response::Season { season: year, url: format!("https://example.com/{year}") })
        .collect();
    let pages = multi_page_plan(pagination(10, 0, 25), None).unwrap();
    let responses: Vec<_> = pages
        .iter()
        .map(|page| {
            let start = page.offset as usize;
            let end = (start + page.limit as usize).min(seasons.len());
            response_with(*page, seasons[start..end].to_vec())
        })
        .collect();

    let response = f1_data::concat::concat_response_multi_pages(responses, f1_data::concat::PageVerify::all()).unwrap();
    assert_eq!(response.pagination, pagination(30, 0, 25));
    assert!(response.pagination.is_single_page());
    assert_eq!(response.as_seasons().unwrap(), &seasons);
}

#[test]
fn plannable_paginations() {
    assert!(f1_data::get::is_plannable(pagination(10, 0, 25)));
    assert!(f1_data::get::is_plannable(pagination(0, 30, 25)));
    assert!(!f1_data::get::is_plannable(pagination(0, 0, 25)));
    assert!(f1_data::get::is_plannable(pagination(10, u32::MAX, 25)));
    assert!(f1_data::get::is_plannable(pagination(10, 0, u32::MAX)));
}

#[test]
fn multi_page_plan_near_the_integer_limit() {
    let half = 1u32 << 31;
    let pages = multi_page_plan(pagination(half, 0, u32::MAX), None).unwrap();
    assert_eq!(pages, vec![pagination(half, 0, u32::MAX), pagination(half, half, u32::MAX)]);

    let pages = multi_page_plan(pagination(10, u32::MAX, 25), None).unwrap();
    assert_eq!(pages, vec![pagination(10, u32::MAX, 25)]);
}

#[test]
fn retry_passes_attempt_numbers() {
    // Three retries make four calls, numbered from zero
    let attempts = RefCell::new(Vec::new());
    let f = |attempt: usize| -> Result<u32, Error> {
        attempts.borrow_mut().push(attempt);
        Err(http_error())
    };
    assert!(matches!(f1_data::get::retry_on_http_error(f, Some(3)), Err(Error::HttpRetries((3, _)))));
    assert_eq!(*attempts.borrow(), vec![0, 1, 2, 3]);

    // The first result that is not an HTTP error ends the retries
    let attempts = RefCell::new(Vec::new());
    let f = |attempt: usize| -> Result<usize, Error> {
        attempts.borrow_mut().push(attempt);
        if attempt < 1 { Err(http_error()) } else { Err(Error::NotFound) }
    };
    assert!(matches!(f1_data::get::retry_on_http_error(f, Some(3)), Err(Error::NotFound)));
    assert_eq!(*attempts.borrow(), vec![0, 1]);
}
